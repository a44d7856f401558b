//! Aggregate statistics over a closed-trades history: total realized
//! profit and loss, and the split into profitable and losing trades.
//! Rendering the numbers is left to the caller; this module only computes.

use vstd::prelude::*;
use vstd::arithmetic::mul::lemma_mul_inequality;
use crate::framework::MAX_CLOSED;
use crate::lifecycle::{lemma_gross_pnl_bound, spec_gross_pnl, PNL_BOUND};
use crate::position::Trade;

verus! {

/// The realized profit or loss a closed trade contributed; an open trade
/// contributes nothing.
pub open spec fn spec_trade_pnl(t: Trade) -> int {
    match t.close_price {
        Option::Some(c) => spec_gross_pnl(t, c),
        Option::None => 0,
    }
}

/// The sum of realized profit and loss over a history.
pub open spec fn spec_total_pnl(s: Seq<Trade>) -> int
    decreases s.len(),
{
    if s.len() == 0 {
        0
    } else {
        spec_total_pnl(s.drop_last()) + spec_trade_pnl(s.last())
    }
}

/// How many trades in a history realized a strictly positive profit.
pub open spec fn spec_profit_count(s: Seq<Trade>) -> int
    decreases s.len(),
{
    if s.len() == 0 {
        0
    } else {
        spec_profit_count(s.drop_last()) + if spec_trade_pnl(s.last()) > 0 {
            1int
        } else {
            0int
        }
    }
}

/// The sum of the strictly positive trade results in a history.
pub open spec fn spec_total_profit(s: Seq<Trade>) -> int
    decreases s.len(),
{
    if s.len() == 0 {
        0
    } else {
        spec_total_profit(s.drop_last()) + if spec_trade_pnl(s.last()) > 0 {
            spec_trade_pnl(s.last())
        } else {
            0int
        }
    }
}

/// Aggregate statistics of a closed-trades history. Trades with a strictly
/// positive result count as profitable; all others, including break-even
/// trades, count as losses, and `total_loss` is their (non-positive) sum.
#[derive(Clone, Copy, Debug)]
pub struct TradeStatistics {
    pub total_trades: usize,
    pub profitable_trades: usize,
    pub loss_trades: usize,
    pub total_pnl: i128,
    pub total_profit: i128,
    pub total_loss: i128,
}

/// Computes the aggregate statistics of `closed_trades`: the realized total,
/// the profitable / losing split, and the two one-sided sums.
pub fn compute_statistics(closed_trades: &Vec<Trade>) -> (r: TradeStatistics)
    requires
        forall|i: int|
            0 <= i < closed_trades@.len() ==> (#[trigger] closed_trades@[i]).wf()
                && closed_trades@[i].is_closed(),
        closed_trades@.len() <= MAX_CLOSED,
    ensures
        r.total_trades == closed_trades@.len(),
        r.total_pnl == spec_total_pnl(closed_trades@),
        r.profitable_trades == spec_profit_count(closed_trades@),
        r.loss_trades == closed_trades@.len() - spec_profit_count(closed_trades@),
        r.total_profit == spec_total_profit(closed_trades@),
        r.total_loss == spec_total_pnl(closed_trades@) - spec_total_profit(closed_trades@),
{
    let n = closed_trades.len();
    let mut total_pnl: i128 = 0;
    let mut total_profit: i128 = 0;
    let mut profitable: usize = 0;
    let mut i: usize = 0;
    proof {
        assert(closed_trades@.take(0) =~= Seq::<Trade>::empty());
    }
    while i < n
        invariant
            n == closed_trades@.len() <= MAX_CLOSED,
            forall|j: int|
                0 <= j < closed_trades@.len() ==> (#[trigger] closed_trades@[j]).wf()
                    && closed_trades@[j].is_closed(),
            0 <= i <= n,
            total_pnl == spec_total_pnl(closed_trades@.take(i as int)),
            total_profit == spec_total_profit(closed_trades@.take(i as int)),
            profitable == spec_profit_count(closed_trades@.take(i as int)),
            -(i as int) * PNL_BOUND <= total_pnl <= (i as int) * PNL_BOUND,
            0 <= total_profit <= (i as int) * PNL_BOUND,
            0 <= profitable <= i,
        decreases n - i,
    {
        let t = closed_trades[i];
        proof {
            let t1 = closed_trades@.take(i + 1);
            assert(t1.drop_last() =~= closed_trades@.take(i as int));
            assert(t1.last() == closed_trades@[i as int]);
            lemma_gross_pnl_bound(t, t.close_price.unwrap());
            lemma_mul_inequality(i as int, MAX_CLOSED as int, PNL_BOUND as int);
        }
        let pnl = match t.close_price {
            Option::Some(c) => crate::lifecycle::gross_pnl(&t, c),
            Option::None => 0,
        };
        total_pnl = total_pnl + pnl;
        if pnl > 0 {
            profitable = profitable + 1;
            total_profit = total_profit + pnl;
        }
        i = i + 1;
    }
    proof {
        assert(closed_trades@.take(n as int) =~= closed_trades@);
    }
    TradeStatistics {
        total_trades: n,
        profitable_trades: profitable,
        loss_trades: n - profitable,
        total_pnl,
        total_profit,
        total_loss: total_pnl - total_profit,
    }
}

} // verus!
