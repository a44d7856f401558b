//! The flat-file cache line format: one JSON object per line, written and
//! read back by this module's encoder and parser, which are specified
//! against each other — a line written for a record parses back to exactly
//! that record.
//!
//! A tick line is `{"timestamp":T,"price":P}` with `T` a non-negative
//! integer and `P` a decimal with up to six fractional digits; the encoder
//! always writes six. A candle line is
//! `{"timestamp":T,"candle":{"close":"C","volume":"V","interval":"I"}}`
//! with plain (unescaped printable ASCII) string fields. Reading the file
//! line by line, and skipping blank lines, is the caller's part.

use vstd::prelude::*;
use vstd::arithmetic::div_mod::{lemma_div_is_ordered, lemma_fundamental_div_mod};
use vstd::string::StringSliceAdditionalSpecFns;
use crate::fixed::SCALE;

verus! {

/// Largest value the line format carries in one integer field: eighteen
/// decimal digits.
pub const MAX_FIELD: u64 = 1_000_000_000_000_000_000;

/// One cached price tick: when it was seen and the mid price, in
/// fixed-point units.
#[derive(Clone, Copy, Debug)]
pub struct PriceTick {
    pub timestamp: i64,
    pub price: u64,
}

/// An ASCII decimal digit.
pub open spec fn is_digit(c: u8) -> bool {
    48 <= c <= 57
}

/// Ten to the `k`-th power.
pub open spec fn pow10(k: int) -> int
    decreases k,
{
    if k <= 0 {
        1
    } else {
        10 * pow10(k - 1)
    }
}

/// The concrete values of the powers of ten the format works with.
pub proof fn lemma_pow10_vals()
    ensures
        pow10(0) == 1,
        pow10(1) == 10,
        pow10(2) == 100,
        pow10(3) == 1000,
        pow10(4) == 10000,
        pow10(5) == 100000,
        pow10(6) == 1000000,
        pow10(7) == 10000000,
        pow10(12) == 1_000_000_000_000,
        pow10(13) == 10_000_000_000_000,
        pow10(18) == 1_000_000_000_000_000_000,
        pow10(19) == 10_000_000_000_000_000_000,
{
    assert(pow10(0) == 1);
    assert(pow10(1) == 10);
    assert(pow10(2) == 100);
    assert(pow10(3) == 1000);
    assert(pow10(4) == 10000);
    assert(pow10(5) == 100000);
    assert(pow10(6) == 1000000);
    assert(pow10(7) == 10000000);
    assert(pow10(8) == 100000000);
    assert(pow10(9) == 1000000000);
    assert(pow10(10) == 10000000000);
    assert(pow10(11) == 100000000000);
    assert(pow10(12) == 1_000_000_000_000);
    assert(pow10(13) == 10_000_000_000_000);
    assert(pow10(14) == 100_000_000_000_000);
    assert(pow10(15) == 1_000_000_000_000_000);
    assert(pow10(16) == 10_000_000_000_000_000);
    assert(pow10(17) == 100_000_000_000_000_000);
    assert(pow10(18) == 1_000_000_000_000_000_000);
    assert(pow10(19) == 10_000_000_000_000_000_000);
}

/// Powers of ten grow with the exponent.
pub proof fn lemma_pow10_increases(j: int, k: int)
    requires
        0 <= j <= k,
    ensures
        pow10(j) <= pow10(k),
    decreases k,
{
    if j < k {
        lemma_pow10_increases(j, k - 1);
        lemma_pow10_pos(k - 1);
    }
}

/// Powers of ten are positive.
pub proof fn lemma_pow10_pos(k: int)
    ensures
        pow10(k) >= 1,
    decreases k,
{
    if k > 0 {
        lemma_pow10_pos(k - 1);
    }
}

/// The decimal digits of `n`, most significant first, without leading
/// zeros (a single `0` for zero).
pub open spec fn spec_digits(n: int) -> Seq<u8>
    decreases n,
{
    if n < 10 {
        seq![(48 + n) as u8]
    } else {
        spec_digits(n / 10).push((48 + n % 10) as u8)
    }
}

/// The value of a run of decimal digits, most significant first.
pub open spec fn spec_parse_digits(s: Seq<u8>) -> int
    decreases s.len(),
{
    if s.len() == 0 {
        0
    } else {
        spec_parse_digits(s.drop_last()) * 10 + (s.last() - 48)
    }
}

/// Every byte of `s` is a decimal digit.
pub open spec fn all_digits(s: Seq<u8>) -> bool {
    forall|i: int| 0 <= i < s.len() ==> is_digit(#[trigger] s[i])
}

/// The digits of a non-negative number are digits, there is at least one,
/// and parsing them yields the number back.
pub proof fn lemma_digits_roundtrip(n: int)
    requires
        0 <= n,
    ensures
        spec_digits(n).len() >= 1,
        all_digits(spec_digits(n)),
        spec_parse_digits(spec_digits(n)) == n,
    decreases n,
{
    if n < 10 {
        let s = spec_digits(n);
        assert(s =~= seq![(48 + n) as u8]);
        assert(s.drop_last() =~= Seq::<u8>::empty());
        assert(spec_parse_digits(Seq::<u8>::empty()) == 0);
        assert(s.last() == (48 + n) as u8);
        assert(spec_parse_digits(s) == n);
    } else {
        lemma_digits_roundtrip(n / 10);
        lemma_fundamental_div_mod(n, 10);
        let s = spec_digits(n);
        let d = (48 + n % 10) as u8;
        assert(s == spec_digits(n / 10).push(d));
        assert(s.drop_last() =~= spec_digits(n / 10));
        assert(s.last() == d);
        assert(all_digits(s)) by {
            assert(forall|i: int|
                0 <= i < s.len() - 1 ==> s[i] == #[trigger] spec_digits(n / 10)[i]);
        };
    }
}

/// A number below `pow10(k)` has at most `k` digits.
pub proof fn lemma_digits_len(n: int, k: int)
    requires
        0 <= n < pow10(k),
        1 <= k,
    ensures
        spec_digits(n).len() <= k,
    decreases k,
{
    if n < 10 {
    } else {
        assert(k >= 2) by {
            lemma_pow10_vals();
        };
        assert(n / 10 < pow10(k - 1)) by {
            lemma_fundamental_div_mod(n, 10);
        };
        lemma_div_is_ordered(0, n, 10);
        lemma_digits_len(n / 10, k - 1);
    }
}

/// The index of the first non-digit byte at or after `i`, or the length if
/// the digits run to the end.
pub open spec fn digit_run_end(s: Seq<u8>, i: int) -> int
    decreases s.len() - i,
{
    if i < 0 || i >= s.len() || !is_digit(s[i]) {
        i
    } else {
        digit_run_end(s, i + 1)
    }
}

/// When the bytes from `i` to `j` are digits and `j` is the length or a
/// non-digit, the digit run starting at `i` ends exactly at `j`.
pub proof fn lemma_digit_run_end(s: Seq<u8>, i: int, j: int)
    requires
        0 <= i <= j <= s.len(),
        forall|k: int| i <= k < j ==> is_digit(#[trigger] s[k]),
        j == s.len() || !is_digit(s[j]),
    ensures
        digit_run_end(s, i) == j,
    decreases j - i,
{
    if i < j {
        lemma_digit_run_end(s, i + 1, j);
    }
}

/// The fractional part `f` (below `SCALE`) as exactly six digits,
/// zero-padded on the left.
pub open spec fn spec_frac6(f: int) -> Seq<u8> {
    seq![
        (48 + (f / 100000) % 10) as u8,
        (48 + (f / 10000) % 10) as u8,
        (48 + (f / 1000) % 10) as u8,
        (48 + (f / 100) % 10) as u8,
        (48 + (f / 10) % 10) as u8,
        (48 + f % 10) as u8,
    ]
}

/// Six zero-padded digits parse back to the fractional part they encode.
pub proof fn lemma_frac6_roundtrip(f: int)
    requires
        0 <= f < SCALE,
    ensures
        spec_frac6(f).len() == 6,
        all_digits(spec_frac6(f)),
        spec_parse_digits(spec_frac6(f)) == f,
{
    let s = spec_frac6(f);
    assert(s.drop_last() =~= seq![
        (48 + (f / 100000) % 10) as u8,
        (48 + (f / 10000) % 10) as u8,
        (48 + (f / 1000) % 10) as u8,
        (48 + (f / 100) % 10) as u8,
        (48 + (f / 10) % 10) as u8,
    ]);
    let s4 = seq![
        (48 + (f / 100000) % 10) as u8,
        (48 + (f / 10000) % 10) as u8,
        (48 + (f / 1000) % 10) as u8,
        (48 + (f / 100) % 10) as u8,
    ];
    let s3 = seq![
        (48 + (f / 100000) % 10) as u8,
        (48 + (f / 10000) % 10) as u8,
        (48 + (f / 1000) % 10) as u8,
    ];
    let s2 = seq![(48 + (f / 100000) % 10) as u8, (48 + (f / 10000) % 10) as u8];
    let s1 = seq![(48 + (f / 100000) % 10) as u8];
    assert(s.drop_last().drop_last() =~= s4);
    assert(s4.drop_last() =~= s3);
    assert(s3.drop_last() =~= s2);
    assert(s2.drop_last() =~= s1);
    assert(s1.drop_last() =~= Seq::<u8>::empty());
    assert(f / 100000 < 10) by {
        lemma_div_is_ordered(f, SCALE - 1, 100000);
    };
    let d5 = (f / 100000) % 10;
    let d4 = (f / 10000) % 10;
    let d3 = (f / 1000) % 10;
    let d2 = (f / 100) % 10;
    let d1 = (f / 10) % 10;
    let d0 = f % 10;
    assert(spec_parse_digits(Seq::<u8>::empty()) == 0);
    assert(spec_parse_digits(s1) == d5);
    assert(spec_parse_digits(s2) == d5 * 10 + d4);
    assert(spec_parse_digits(s3) == (d5 * 10 + d4) * 10 + d3);
    assert(spec_parse_digits(s4) == ((d5 * 10 + d4) * 10 + d3) * 10 + d2);
    assert(spec_parse_digits(s.drop_last()) == (((d5 * 10 + d4) * 10 + d3) * 10 + d2) * 10 + d1);
    assert(spec_parse_digits(s) == ((((d5 * 10 + d4) * 10 + d3) * 10 + d2) * 10 + d1) * 10 + d0);
    assert(f == (f / 100000) % 10 * 100000 + (f / 10000) % 10 * 10000 + (f / 1000) % 10 * 1000 + (f
        / 100) % 10 * 100 + (f / 10) % 10 * 10 + f % 10) by {
        lemma_fundamental_div_mod(f, 10);
        lemma_fundamental_div_mod(f / 10, 10);
        lemma_fundamental_div_mod(f / 10 / 10, 10);
        lemma_fundamental_div_mod(f / 10 / 10 / 10, 10);
        lemma_fundamental_div_mod(f / 10 / 10 / 10 / 10, 10);
        assert(f / 10 / 10 == f / 100) by {
            vstd::arithmetic::div_mod::lemma_div_denominator(f, 10, 10);
        };
        assert(f / 100 / 10 == f / 1000) by {
            vstd::arithmetic::div_mod::lemma_div_denominator(f, 100, 10);
        };
        assert(f / 1000 / 10 == f / 10000) by {
            vstd::arithmetic::div_mod::lemma_div_denominator(f, 1000, 10);
        };
        assert(f / 10000 / 10 == f / 100000) by {
            vstd::arithmetic::div_mod::lemma_div_denominator(f, 10000, 10);
        };
        assert((f / 100000) % 10 == f / 100000) by {
            vstd::arithmetic::div_mod::lemma_small_mod((f / 100000) as nat, 10);
        };
    };
}

/// Multiplying powers of ten adds the exponents.
pub proof fn lemma_pow10_adds(a: int, b: int)
    requires
        0 <= a,
        0 <= b,
    ensures
        pow10(a) * pow10(b) == pow10(a + b),
    decreases a,
{
    if a == 0 {
    } else {
        lemma_pow10_adds(a - 1, b);
        assert((10 * pow10(a - 1)) * pow10(b) == 10 * (pow10(a - 1) * pow10(b)))
            by (nonlinear_arith);
    }
}

/// Appends the decimal digits of `n` to `v`.
fn push_digits(v: &mut Vec<u8>, n: u64)
    ensures
        final(v)@ == old(v)@ + spec_digits(n as int),
    decreases n,
{
    if n < 10 {
        v.push(48 + n as u8);
        assert(v@ =~= old(v)@ + spec_digits(n as int));
    } else {
        push_digits(v, n / 10);
        v.push(48 + (n % 10) as u8);
        assert(v@ =~= old(v)@ + spec_digits(n as int));
    }
}

/// The first index at or after `from` whose byte is not a decimal digit.
fn scan_digits(s: &[u8], from: usize) -> (r: usize)
    requires
        from <= s@.len(),
    ensures
        r == digit_run_end(s@, from as int),
        from <= r <= s@.len(),
        all_digits(s@.subrange(from as int, r as int)),
{
    let n = s.len();
    let mut i = from;
    while i < n && 48 <= s[i] && s[i] <= 57
        invariant
            from <= i <= n == s@.len(),
            digit_run_end(s@, from as int) == digit_run_end(s@, i as int),
            forall|k: int| from <= k < i ==> is_digit(#[trigger] s@[k]),
        decreases n - i,
    {
        i = i + 1;
    }
    proof {
        assert(digit_run_end(s@, i as int) == i);
        assert(forall|k: int|
            from <= k < i ==> is_digit(#[trigger] s@.subrange(from as int, i as int)[k - from]));
    }
    i
}

/// The value of the digit run `s[from .. to]`, at most eighteen digits.
fn parse_digits_val(s: &[u8], from: usize, to: usize) -> (r: u64)
    requires
        from <= to <= s@.len(),
        to - from <= 18,
        all_digits(s@.subrange(from as int, to as int)),
    ensures
        r == spec_parse_digits(s@.subrange(from as int, to as int)),
        r < pow10((to - from) as int),
{
    proof {
        lemma_pow10_vals();
    }
    let mut val: u64 = 0;
    let mut i = from;
    proof {
        assert(s@.subrange(from as int, from as int) =~= Seq::<u8>::empty());
    }
    while i < to
        invariant
            from <= i <= to <= s@.len(),
            to - from <= 18,
            all_digits(s@.subrange(from as int, to as int)),
            val == spec_parse_digits(s@.subrange(from as int, i as int)),
            val < pow10((i - from) as int),
        decreases to - i,
    {
        proof {
            let cur = s@.subrange(from as int, i as int);
            let nxt = s@.subrange(from as int, i + 1);
            assert(nxt.drop_last() =~= cur);
            assert(s@[i as int] == s@.subrange(from as int, to as int)[i - from]);
            assert(is_digit(s@[i as int]));
            lemma_pow10_vals();
            lemma_pow10_increases((i - from) as int, 17);
        }
        val = val * 10 + ((s[i] - 48) as u64);
        i = i + 1;
        proof {
            lemma_pow10_pos((i - from) as int);
        }
    }
    proof {
        lemma_pow10_increases((to - from) as int, 18);
    }
    val
}

/// Ten to the `k`-th power, executably.
fn pow10_u64(k: usize) -> (r: u64)
    requires
        k <= 18,
    ensures
        r == pow10(k as int),
{
    proof {
        lemma_pow10_vals();
    }
    let mut r: u64 = 1;
    let mut i: usize = 0;
    while i < k
        invariant
            0 <= i <= k <= 18,
            r == pow10(i as int),
        decreases k - i,
    {
        proof {
            lemma_pow10_vals();
            lemma_pow10_increases(i as int, 17);
        }
        r = r * 10;
        i = i + 1;
    }
    r
}

/// The opening of a tick line: `{"timestamp":`.
pub open spec fn key_timestamp() -> Seq<u8> {
    seq![
        123u8,
        34u8,
        116u8,
        105u8,
        109u8,
        101u8,
        115u8,
        116u8,
        97u8,
        109u8,
        112u8,
        34u8,
        58u8,
    ]
}

/// The price field introducer of a tick line: `,"price":`.
pub open spec fn key_price() -> Seq<u8> {
    seq![44u8, 34u8, 112u8, 114u8, 105u8, 99u8, 101u8, 34u8, 58u8]
}

/// The encoded tick line: the two keys around the timestamp digits and
/// the price written as whole units, a dot, and six fractional digits.
pub open spec fn spec_encode_tick(t: PriceTick) -> Seq<u8> {
    key_timestamp() + spec_digits(t.timestamp as int) + key_price() + spec_digits(
        (t.price as int) / (SCALE as int),
    ) + seq![46u8] + spec_frac6((t.price as int) % (SCALE as int)) + seq![125u8]
}

/// What a byte sequence parses to as a tick line: `None` unless it has
/// exactly the shape `{"timestamp":T,"price":W}` or
/// `{"timestamp":T,"price":W.F}`, with `T` one to eighteen digits, `W` one
/// to twelve digits and `F` one to six digits; a short fraction counts as
/// zero-extended to six digits.
pub open spec fn spec_parse_tick(s: Seq<u8>) -> Option<PriceTick> {
    if s.len() < 13 || s.subrange(0, 13) != key_timestamp() {
        Option::None
    } else {
        let i1 = digit_run_end(s, 13);
        if i1 == 13 || i1 - 13 > 18 {
            Option::None
        } else {
            let ts = spec_parse_digits(s.subrange(13, i1));
            if s.len() < i1 + 9 || s.subrange(i1, i1 + 9) != key_price() {
                Option::None
            } else {
                let i2 = i1 + 9;
                let i3 = digit_run_end(s, i2);
                if i3 == i2 || i3 - i2 > 12 {
                    Option::None
                } else {
                    let whole = spec_parse_digits(s.subrange(i2, i3));
                    if i3 < s.len() && s[i3] == 46 {
                        let i4 = digit_run_end(s, i3 + 1);
                        if i4 == i3 + 1 || i4 - (i3 + 1) > 6 {
                            Option::None
                        } else if i4 + 1 == s.len() && s[i4] == 125 {
                            let frac = spec_parse_digits(s.subrange(i3 + 1, i4)) * pow10(
                                6 - (i4 - (i3 + 1)),
                            );
                            Option::Some(
                                PriceTick {
                                    timestamp: ts as i64,
                                    price: (whole * (SCALE as int) + frac) as u64,
                                },
                            )
                        } else {
                            Option::None
                        }
                    } else if i3 + 1 == s.len() && s[i3] == 125 {
                        Option::Some(
                            PriceTick { timestamp: ts as i64, price: (whole * (SCALE as int)) as u64 },
                        )
                    } else {
                        Option::None
                    }
                }
            }
        }
    }
}

/// A tick line written by the encoder parses back to exactly the tick it
/// was written for: the cache round trip loses nothing.
pub proof fn lemma_tick_roundtrip(t: PriceTick)
    requires
        0 <= t.timestamp < MAX_FIELD,
        t.price < MAX_FIELD,
    ensures
        spec_parse_tick(spec_encode_tick(t)) == Option::Some(t),
{
    lemma_pow10_vals();
    let sc = SCALE as int;
    let ts = t.timestamp as int;
    let wp = (t.price as int) / sc;
    let fp = (t.price as int) % sc;
    lemma_fundamental_div_mod(t.price as int, sc);
    lemma_div_is_ordered(0, t.price as int, sc);
    assert(wp < pow10(12)) by {
        lemma_div_is_ordered(t.price as int, MAX_FIELD - 1, sc);
    };
    lemma_digits_roundtrip(ts);
    lemma_digits_roundtrip(wp);
    lemma_digits_len(ts, 18);
    lemma_digits_len(wp, 12);
    lemma_frac6_roundtrip(fp);
    let a = key_timestamp();
    let b = spec_digits(ts);
    let c = key_price();
    let d = spec_digits(wp);
    let e = seq![46u8];
    let f = spec_frac6(fp);
    let g = seq![125u8];
    let s = spec_encode_tick(t);
    assert(s == a + b + c + d + e + f + g);
    let i1 = 13 + b.len() as int;
    let i2 = i1 + 9;
    let i3 = i2 + d.len() as int;
    let i4 = i3 + 1 + 6;
    assert(s.len() == i4 + 1);
    assert(s.subrange(0, 13) =~= a);
    assert(forall|k: int| 13 <= k < i1 ==> s[k] == #[trigger] b[k - 13]);
    assert(!is_digit(44u8));
    assert(s[i1] == 44u8);
    lemma_digit_run_end(s, 13, i1);
    assert(s.subrange(13, i1) =~= b);
    assert(s.subrange(i1, i1 + 9) =~= c);
    assert(forall|k: int| i2 <= k < i3 ==> s[k] == #[trigger] d[k - i2]);
    assert(s[i3] == 46u8);
    assert(!is_digit(46u8));
    lemma_digit_run_end(s, i2, i3);
    assert(s.subrange(i2, i3) =~= d);
    assert(forall|k: int| i3 + 1 <= k < i4 ==> s[k] == #[trigger] f[k - (i3 + 1)]);
    assert(s[i4] == 125u8);
    assert(!is_digit(125u8));
    lemma_digit_run_end(s, i3 + 1, i4);
    assert(s.subrange(i3 + 1, i4) =~= f);
    assert(spec_parse_digits(s.subrange(13, i1)) == ts);
    assert(spec_parse_digits(s.subrange(i2, i3)) == wp);
    assert(spec_parse_digits(s.subrange(i3 + 1, i4)) == fp);
    assert(pow10(6 - (i4 - (i3 + 1))) == 1);
    assert(wp * sc + fp * 1 == t.price as int) by {
        lemma_fundamental_div_mod(t.price as int, sc);
        assert(sc * wp == wp * sc) by (nonlinear_arith);
    };
    assert(spec_parse_tick(s) == Option::Some(t));
}

/// For plain ASCII string fields the candle round trip loses nothing at
/// the character level either: the parsed field bytes, decoded one
/// character per byte, are the very characters the fields held.
pub proof fn lemma_candle_roundtrip_strings(ts: int, cs: Seq<char>, vs: Seq<char>, ns: Seq<char>)
    requires
        0 <= ts < MAX_FIELD,
        vstd::utf8::is_ascii_chars(cs),
        vstd::utf8::is_ascii_chars(vs),
        vstd::utf8::is_ascii_chars(ns),
        all_plain(str_bytes(cs)),
        all_plain(str_bytes(vs)),
        all_plain(str_bytes(ns)),
    ensures
        ({
            let parsed = spec_parse_candle(
                spec_encode_candle(ts, str_bytes(cs), str_bytes(vs), str_bytes(ns)),
            );
            &&& parsed is Some
            &&& parsed.unwrap().ts == ts
            &&& parsed.unwrap().close.map_values(|b: u8| b as char) == cs
            &&& parsed.unwrap().volume.map_values(|b: u8| b as char) == vs
            &&& parsed.unwrap().interval.map_values(|b: u8| b as char) == ns
        }),
{
    lemma_candle_roundtrip(ts, str_bytes(cs), str_bytes(vs), str_bytes(ns));
    lemma_ascii_bytes_decode(cs);
    lemma_ascii_bytes_decode(vs);
    lemma_ascii_bytes_decode(ns);
}

/// Decoding the bytes of ASCII characters, one character per byte, gives
/// the characters back.
proof fn lemma_ascii_bytes_decode(cs: Seq<char>)
    requires
        vstd::utf8::is_ascii_chars(cs),
    ensures
        str_bytes(cs).map_values(|b: u8| b as char) == cs,
{
    let decoded = str_bytes(cs).map_values(|b: u8| b as char);
    assert forall|i: int| 0 <= i < cs.len() implies decoded[i] == cs[i] by {
        assert('\0' <= cs[i] <= '\u{7f}');
        assert(((cs[i] as u8) as char) == cs[i]);
    };
    assert(decoded =~= cs);
}

/// The thirteen bytes of the timestamp key.
proof fn lemma_key_bytes()
    ensures
        key_timestamp().len() == 13,
        key_timestamp()[0] == 123u8,
        key_timestamp()[1] == 34u8,
        key_timestamp()[2] == 116u8,
        key_timestamp()[3] == 105u8,
        key_timestamp()[4] == 109u8,
        key_timestamp()[5] == 101u8,
        key_timestamp()[6] == 115u8,
        key_timestamp()[7] == 116u8,
        key_timestamp()[8] == 97u8,
        key_timestamp()[9] == 109u8,
        key_timestamp()[10] == 112u8,
        key_timestamp()[11] == 34u8,
        key_timestamp()[12] == 58u8,
        key_price().len() == 9,
        key_price()[0] == 44u8,
        key_price()[1] == 34u8,
        key_price()[2] == 112u8,
        key_price()[3] == 114u8,
        key_price()[4] == 105u8,
        key_price()[5] == 99u8,
        key_price()[6] == 101u8,
        key_price()[7] == 34u8,
        key_price()[8] == 58u8,
{
}

/// Whether `s` opens with the timestamp key.
fn has_key_timestamp(s: &[u8]) -> (r: bool)
    ensures
        r == (s@.len() >= 13 && s@.subrange(0, 13) == key_timestamp()),
{
    proof {
        lemma_key_bytes();
    }
    if s.len() < 13 {
        return false;
    }
    let ok = s[0] == 123 && s[1] == 34 && s[2] == 116 && s[3] == 105 && s[4] == 109 && s[5] == 101
        && s[6] == 115 && s[7] == 116 && s[8] == 97 && s[9] == 109 && s[10] == 112 && s[11] == 34
        && s[12] == 58;
    proof {
        if ok {
            assert(s@.subrange(0, 13) =~= key_timestamp());
        } else {
            assert(s@.subrange(0, 13) == key_timestamp() ==> (s@[0] == 123 && s@[1] == 34 && s@[2]
                == 116 && s@[3] == 105 && s@[4] == 109 && s@[5] == 101 && s@[6] == 115 && s@[7]
                == 116 && s@[8] == 97 && s@[9] == 109 && s@[10] == 112 && s@[11] == 34 && s@[12]
                == 58)) by {
                if s@.subrange(0, 13) == key_timestamp() {
                    assert(forall|k: int|
                        0 <= k < 13 ==> s@[k] == #[trigger] key_timestamp()[k]) by {
                        assert(forall|k: int|
                            0 <= k < 13 ==> s@[k] == #[trigger] s@.subrange(0, 13)[k]);
                    };
                }
            };
        }
    }
    ok
}

/// Whether `s` carries the price key at `at`.
fn has_key_price_at(s: &[u8], at: usize) -> (r: bool)
    requires
        at <= s@.len(),
    ensures
        r == (s@.len() >= at + 9 && s@.subrange(at as int, at + 9) == key_price()),
{
    proof {
        lemma_key_bytes();
    }
    if s.len() - at < 9 {
        return false;
    }
    let ok = s[at] == 44 && s[at + 1] == 34 && s[at + 2] == 112 && s[at + 3] == 114 && s[at + 4]
        == 105 && s[at + 5] == 99 && s[at + 6] == 101 && s[at + 7] == 34 && s[at + 8] == 58;
    proof {
        if ok {
            assert(s@.subrange(at as int, at + 9) =~= key_price());
        } else {
            assert(s@.subrange(at as int, at + 9) == key_price() ==> (s@[at as int] == 44 && s@[at
                + 1] == 34 && s@[at + 2] == 112 && s@[at + 3] == 114 && s@[at + 4] == 105 && s@[at
                + 5] == 99 && s@[at + 6] == 101 && s@[at + 7] == 34 && s@[at + 8] == 58)) by {
                if s@.subrange(at as int, at + 9) == key_price() {
                    assert(forall|k: int|
                        0 <= k < 9 ==> s@[at + k] == #[trigger] key_price()[k]) by {
                        assert(forall|k: int|
                            0 <= k < 9 ==> s@[at + k] == #[trigger] s@.subrange(
                                at as int,
                                at + 9,
                            )[k]);
                    };
                }
            };
        }
    }
    ok
}

/// Encodes `t` as one cache line (without the trailing newline).
pub fn encode_tick_line(t: &PriceTick) -> (r: Vec<u8>)
    requires
        0 <= t.timestamp < MAX_FIELD,
        t.price < MAX_FIELD,
    ensures
        r@ == spec_encode_tick(*t),
{
    proof {
        lemma_key_bytes();
    }
    let mut v: Vec<u8> = Vec::new();
    v.push(123);
    v.push(34);
    v.push(116);
    v.push(105);
    v.push(109);
    v.push(101);
    v.push(115);
    v.push(116);
    v.push(97);
    v.push(109);
    v.push(112);
    v.push(34);
    v.push(58);
    assert(v@ =~= key_timestamp());
    push_digits(&mut v, t.timestamp as u64);
    let ghost v1 = v@;
    v.push(44);
    v.push(34);
    v.push(112);
    v.push(114);
    v.push(105);
    v.push(99);
    v.push(101);
    v.push(34);
    v.push(58);
    assert(v@ =~= v1 + key_price());
    push_digits(&mut v, t.price / SCALE);
    let ghost v2 = v@;
    v.push(46);
    assert(v@ =~= v2 + seq![46u8]);
    let f = t.price % SCALE;
    let ghost v3 = v@;
    v.push(48 + ((f / 100000) % 10) as u8);
    v.push(48 + ((f / 10000) % 10) as u8);
    v.push(48 + ((f / 1000) % 10) as u8);
    v.push(48 + ((f / 100) % 10) as u8);
    v.push(48 + ((f / 10) % 10) as u8);
    v.push(48 + (f % 10) as u8);
    assert(v@ =~= v3 + spec_frac6(f as int));
    let ghost v4 = v@;
    v.push(125);
    assert(v@ =~= v4 + seq![125u8]);
    v
}

/// Parses one cache line as a tick: exactly the lines of the format's
/// shape are accepted, and the encoder's own lines give back their tick.
pub fn parse_tick_line(s: &[u8]) -> (r: Option<PriceTick>)
    ensures
        r == spec_parse_tick(s@),
{
    proof {
        lemma_pow10_vals();
    }
    if !has_key_timestamp(s) {
        return Option::None;
    }
    let i1 = scan_digits(s, 13);
    if i1 == 13 || i1 - 13 > 18 {
        return Option::None;
    }
    let ts = parse_digits_val(s, 13, i1);
    if !has_key_price_at(s, i1) {
        return Option::None;
    }
    let i2 = i1 + 9;
    let i3 = scan_digits(s, i2);
    if i3 == i2 || i3 - i2 > 12 {
        return Option::None;
    }
    let whole = parse_digits_val(s, i2, i3);
    proof {
        lemma_pow10_increases((i3 - i2) as int, 12);
    }
    if i3 < s.len() && s[i3] == 46 {
        let i4 = scan_digits(s, i3 + 1);
        if i4 == i3 + 1 || i4 - (i3 + 1) > 6 {
            return Option::None;
        }
        if i4 + 1 == s.len() && s[i4] == 125 {
            let fl = i4 - (i3 + 1);
            let frac_raw = parse_digits_val(s, i3 + 1, i4);
            proof {
                lemma_pow10_increases(fl as int, 6);
                lemma_pow10_increases((6 - fl) as int, 6);
                assert(frac_raw * pow10((6 - fl) as int) < pow10(6)) by {
                    lemma_pow10_adds(fl as int, (6 - fl) as int);
                    lemma_pow10_pos((6 - fl) as int);
                    vstd::arithmetic::mul::lemma_mul_inequality(
                        frac_raw as int,
                        pow10(fl as int) - 1,
                        pow10((6 - fl) as int),
                    );
                    assert((pow10(fl as int) - 1) * pow10((6 - fl) as int) == pow10(fl as int)
                        * pow10((6 - fl) as int) - pow10((6 - fl) as int)) by (nonlinear_arith);
                };
            }
            let frac = frac_raw * pow10_u64(6 - fl);
            let price = whole * SCALE + frac;
            Option::Some(PriceTick { timestamp: ts as i64, price })
        } else {
            Option::None
        }
    } else if i3 + 1 == s.len() && s[i3] == 125 {
        let price = whole * SCALE;
        Option::Some(PriceTick { timestamp: ts as i64, price })
    } else {
        Option::None
    }
}

/// A cached candle's serializable part: the closing price, the traded
/// volume and the timeframe, all as the feed's decimal strings.
#[derive(Debug)]
pub struct SerializableCandleData {
    pub close: String,
    pub volume: String,
    pub interval: String,
}

/// One cached candle line: when it was recorded, and the candle itself.
#[derive(Debug)]
pub struct CandleDataRecord {
    pub timestamp: i64,
    pub candle: SerializableCandleData,
}

/// The bytes of a character sequence, one byte per character; faithful
/// exactly for ASCII text.
pub open spec fn str_bytes(cs: Seq<char>) -> Seq<u8> {
    Seq::new(cs.len(), |i: int| cs[i] as u8)
}

/// A byte the format carries in a string field without escaping:
/// printable ASCII except the quote and the backslash.
pub open spec fn is_plain(b: u8) -> bool {
    32 <= b < 127 && b != 34 && b != 92
}

/// Every byte of `s` is plain.
pub open spec fn all_plain(s: Seq<u8>) -> bool {
    forall|i: int| 0 <= i < s.len() ==> is_plain(#[trigger] s[i])
}

/// The candle object opening after the timestamp: `,"candle":{"close":"`.
pub open spec fn key_close() -> Seq<u8> {
    seq![
        44u8,
        34u8,
        99u8,
        97u8,
        110u8,
        100u8,
        108u8,
        101u8,
        34u8,
        58u8,
        123u8,
        34u8,
        99u8,
        108u8,
        111u8,
        115u8,
        101u8,
        34u8,
        58u8,
        34u8,
    ]
}

/// The volume field introducer: `","volume":"`.
pub open spec fn key_volume() -> Seq<u8> {
    seq![34u8, 44u8, 34u8, 118u8, 111u8, 108u8, 117u8, 109u8, 101u8, 34u8, 58u8, 34u8]
}

/// The interval field introducer: `","interval":"`.
pub open spec fn key_interval() -> Seq<u8> {
    seq![34u8, 44u8, 34u8, 105u8, 110u8, 116u8, 101u8, 114u8, 118u8, 97u8, 108u8, 34u8, 58u8, 34u8]
}

/// The closing of a candle line: `"}}`.
pub open spec fn key_tail() -> Seq<u8> {
    seq![34u8, 125u8, 125u8]
}

/// The encoded candle line: the timestamp as digits, then the three string
/// fields, each between its introducer and the next.
pub open spec fn spec_encode_candle(ts: int, c: Seq<u8>, v: Seq<u8>, i: Seq<u8>) -> Seq<u8> {
    key_timestamp() + spec_digits(ts) + key_close() + c + key_volume() + v + key_interval() + i
        + key_tail()
}

/// The index of the first non-plain byte at or after `i`, or the length if
/// plain bytes run to the end. A string field ends there: at its closing
/// quote, or at a byte the format cannot carry.
pub open spec fn plain_run_end(s: Seq<u8>, i: int) -> int
    decreases s.len() - i,
{
    if i < 0 || i >= s.len() || !is_plain(s[i]) {
        i
    } else {
        plain_run_end(s, i + 1)
    }
}

/// When the bytes from `i` to `j` are plain and `j` is the length or a
/// non-plain byte, the plain run starting at `i` ends exactly at `j`.
pub proof fn lemma_plain_run_end(s: Seq<u8>, i: int, j: int)
    requires
        0 <= i <= j <= s.len(),
        forall|k: int| i <= k < j ==> is_plain(#[trigger] s[k]),
        j == s.len() || !is_plain(s[j]),
    ensures
        plain_run_end(s, i) == j,
    decreases j - i,
{
    if i < j {
        lemma_plain_run_end(s, i + 1, j);
    }
}

/// What a candle line parses to: the timestamp and the raw bytes of the
/// three string fields.
pub ghost struct CandleLine {
    pub ts: int,
    pub close: Seq<u8>,
    pub volume: Seq<u8>,
    pub interval: Seq<u8>,
}

/// What a byte sequence parses to as a candle line: `None` unless it has
/// exactly the shape
/// `{"timestamp":T,"candle":{"close":"C","volume":"V","interval":"I"}}`
/// with `T` one to eighteen digits and plain string fields.
pub open spec fn spec_parse_candle(s: Seq<u8>) -> Option<CandleLine> {
    if s.len() < 13 || s.subrange(0, 13) != key_timestamp() {
        Option::None
    } else {
        let i1 = digit_run_end(s, 13);
        if i1 == 13 || i1 - 13 > 18 {
            Option::None
        } else {
            let ts = spec_parse_digits(s.subrange(13, i1));
            if s.len() < i1 + 20 || s.subrange(i1, i1 + 20) != key_close() {
                Option::None
            } else {
                let c0 = i1 + 20;
                let c1 = plain_run_end(s, c0);
                if s.len() < c1 + 12 || s.subrange(c1, c1 + 12) != key_volume() {
                    Option::None
                } else {
                    let v0 = c1 + 12;
                    let v1 = plain_run_end(s, v0);
                    if s.len() < v1 + 14 || s.subrange(v1, v1 + 14) != key_interval() {
                        Option::None
                    } else {
                        let n0 = v1 + 14;
                        let n1 = plain_run_end(s, n0);
                        if n1 + 3 == s.len() && s.subrange(n1, n1 + 3) == key_tail() {
                            Option::Some(
                                CandleLine {
                                    ts,
                                    close: s.subrange(c0, c1),
                                    volume: s.subrange(v0, v1),
                                    interval: s.subrange(n0, n1),
                                },
                            )
                        } else {
                            Option::None
                        }
                    }
                }
            }
        }
    }
}

/// A candle line written by the encoder parses back to exactly the
/// timestamp and field bytes it was written for.
#[verifier::rlimit(100)]
#[verifier::spinoff_prover]
pub proof fn lemma_candle_roundtrip(ts: int, c: Seq<u8>, v: Seq<u8>, i: Seq<u8>)
    requires
        0 <= ts < MAX_FIELD,
        all_plain(c),
        all_plain(v),
        all_plain(i),
    ensures
        spec_parse_candle(spec_encode_candle(ts, c, v, i)) == Option::Some(
            CandleLine { ts, close: c, volume: v, interval: i },
        ),
{
    lemma_pow10_vals();
    lemma_digits_roundtrip(ts);
    lemma_digits_len(ts, 18);
    let a = key_timestamp();
    let b = spec_digits(ts);
    let s = spec_encode_candle(ts, c, v, i);
    let i1 = 13 + b.len() as int;
    let c0 = i1 + 20;
    let c1 = c0 + c.len() as int;
    let v0 = c1 + 12;
    let v1 = v0 + v.len() as int;
    let n0 = v1 + 14;
    let n1 = n0 + i.len() as int;
    assert(s.len() == n1 + 3);
    assert(s.subrange(0, 13) =~= a);
    assert(forall|k: int| 13 <= k < i1 ==> s[k] == #[trigger] b[k - 13]);
    assert(s[i1] == 44u8);
    assert(!is_digit(44u8));
    lemma_digit_run_end(s, 13, i1);
    assert(s.subrange(13, i1) =~= b);
    assert(s.subrange(i1, i1 + 20) =~= key_close());
    assert(forall|k: int| c0 <= k < c1 ==> s[k] == #[trigger] c[k - c0]);
    assert(s[c1] == 34u8);
    assert(!is_plain(34u8));
    lemma_plain_run_end(s, c0, c1);
    assert(s.subrange(c0, c1) =~= c);
    assert(s.subrange(c1, c1 + 12) =~= key_volume());
    assert(forall|k: int| v0 <= k < v1 ==> s[k] == #[trigger] v[k - v0]);
    assert(s[v1] == 34u8);
    lemma_plain_run_end(s, v0, v1);
    assert(s.subrange(v0, v1) =~= v);
    assert(s.subrange(v1, v1 + 14) =~= key_interval());
    assert(forall|k: int| n0 <= k < n1 ==> s[k] == #[trigger] i[k - n0]);
    assert(s[n1] == 34u8);
    lemma_plain_run_end(s, n0, n1);
    assert(s.subrange(n0, n1) =~= i);
    assert(s.subrange(n1, n1 + 3) =~= key_tail());
    assert(spec_parse_digits(s.subrange(13, i1)) == ts);
    assert(spec_parse_candle(s) == Option::Some(
        CandleLine { ts, close: c, volume: v, interval: i },
    ));
}

/// Appends all of `p` to `v`.
fn push_slice(v: &mut Vec<u8>, p: &[u8])
    ensures
        final(v)@ == old(v)@ + p@,
{
    let ghost base = v@;
    let n = p.len();
    let mut i: usize = 0;
    proof {
        assert(base + p@.subrange(0, 0) =~= base);
    }
    while i < n
        invariant
            i <= n == p@.len(),
            v@ == base + p@.subrange(0, i as int),
        decreases n - i,
    {
        v.push(p[i]);
        proof {
            assert(base + p@.subrange(0, i + 1) =~= (base + p@.subrange(0, i as int)).push(
                p@[i as int],
            ));
        }
        i = i + 1;
    }
    proof {
        assert(p@.subrange(0, n as int) =~= p@);
    }
}

/// Whether `s` carries exactly the bytes of `p` at `at`.
fn bytes_match_at(s: &[u8], at: usize, p: &[u8]) -> (r: bool)
    requires
        at <= s@.len(),
    ensures
        r == (s@.len() >= at + p@.len() && s@.subrange(at as int, at + p@.len()) == p@),
{
    let n = p.len();
    let sl = s.len();
    if sl - at < n {
        return false;
    }
    let mut i: usize = 0;
    while i < n
        invariant
            at + n <= sl == s@.len(),
            n == p@.len(),
            0 <= i <= n,
            forall|k: int| 0 <= k < i ==> s@[at + k] == #[trigger] p@[k],
        decreases n - i,
    {
        if s[at + i] != p[i] {
            proof {
                assert(s@.subrange(at as int, at + p@.len())[i as int] == s@[at + i]);
            }
            return false;
        }
        i = i + 1;
    }
    proof {
        assert(s@.subrange(at as int, at + p@.len()) =~= p@);
    }
    true
}

/// The first index at or after `from` whose byte is not plain.
fn scan_plain(s: &[u8], from: usize) -> (r: usize)
    requires
        from <= s@.len(),
    ensures
        r == plain_run_end(s@, from as int),
        from <= r <= s@.len(),
        all_plain(s@.subrange(from as int, r as int)),
{
    let n = s.len();
    let mut i = from;
    while i < n && 32 <= s[i] && s[i] < 127 && s[i] != 34 && s[i] != 92
        invariant
            from <= i <= n == s@.len(),
            plain_run_end(s@, from as int) == plain_run_end(s@, i as int),
            forall|k: int| from <= k < i ==> is_plain(#[trigger] s@[k]),
        decreases n - i,
    {
        i = i + 1;
    }
    proof {
        assert(plain_run_end(s@, i as int) == i);
        assert(forall|k: int|
            from <= k < i ==> is_plain(#[trigger] s@.subrange(from as int, i as int)[k - from]));
    }
    i
}

/// The bytes `s[a .. b]` as a fresh vector.
fn copy_range(s: &[u8], a: usize, b: usize) -> (r: Vec<u8>)
    requires
        a <= b <= s@.len(),
    ensures
        r@ == s@.subrange(a as int, b as int),
{
    let mut v: Vec<u8> = Vec::new();
    let mut i = a;
    proof {
        assert(s@.subrange(a as int, a as int) =~= Seq::<u8>::empty());
    }
    while i < b
        invariant
            a <= i <= b <= s@.len(),
            v@ == s@.subrange(a as int, i as int),
        decreases b - i,
    {
        v.push(s[i]);
        proof {
            assert(s@.subrange(a as int, i + 1) =~= s@.subrange(a as int, i as int).push(
                s@[i as int],
            ));
        }
        i = i + 1;
    }
    v
}

/// Whether every byte of `s` is plain.
fn all_plain_bytes(s: &[u8]) -> (r: bool)
    ensures
        r == all_plain(s@),
{
    let n = s.len();
    let mut i: usize = 0;
    while i < n
        invariant
            0 <= i <= n == s@.len(),
            forall|k: int| 0 <= k < i ==> is_plain(#[trigger] s@[k]),
        decreases n - i,
    {
        let b = s[i];
        if !(32 <= b && b < 127 && b != 34 && b != 92) {
            return false;
        }
        i = i + 1;
    }
    true
}

/// Relies on `String::from_utf8`: bytes that are all ASCII are valid UTF-8
/// and decode to one character per byte, with the same code each.
#[verifier::external_body]
fn bytes_to_string(v: Vec<u8>) -> (r: String)
    requires
        forall|i: int| 0 <= i < v@.len() ==> v@[i] < 128,
    ensures
        r@ == v@.map_values(|b: u8| b as char),
{
    String::from_utf8(v).unwrap_or_default()
}

/// The timestamp key as a vector.
fn key_timestamp_vec() -> (r: Vec<u8>)
    ensures
        r@ == key_timestamp(),
{
    let mut v: Vec<u8> = Vec::new();
    v.push(123);
    v.push(34);
    v.push(116);
    v.push(105);
    v.push(109);
    v.push(101);
    v.push(115);
    v.push(116);
    v.push(97);
    v.push(109);
    v.push(112);
    v.push(34);
    v.push(58);
    proof {
        assert(v@ =~= key_timestamp());
    }
    v
}

/// The close-field key as a vector.
fn key_close_vec() -> (r: Vec<u8>)
    ensures
        r@ == key_close(),
{
    let mut v: Vec<u8> = Vec::new();
    v.push(44);
    v.push(34);
    v.push(99);
    v.push(97);
    v.push(110);
    v.push(100);
    v.push(108);
    v.push(101);
    v.push(34);
    v.push(58);
    v.push(123);
    v.push(34);
    v.push(99);
    v.push(108);
    v.push(111);
    v.push(115);
    v.push(101);
    v.push(34);
    v.push(58);
    v.push(34);
    proof {
        assert(v@ =~= key_close());
    }
    v
}

/// The volume-field key as a vector.
fn key_volume_vec() -> (r: Vec<u8>)
    ensures
        r@ == key_volume(),
{
    let mut v: Vec<u8> = Vec::new();
    v.push(34);
    v.push(44);
    v.push(34);
    v.push(118);
    v.push(111);
    v.push(108);
    v.push(117);
    v.push(109);
    v.push(101);
    v.push(34);
    v.push(58);
    v.push(34);
    proof {
        assert(v@ =~= key_volume());
    }
    v
}

/// The interval-field key as a vector.
fn key_interval_vec() -> (r: Vec<u8>)
    ensures
        r@ == key_interval(),
{
    let mut v: Vec<u8> = Vec::new();
    v.push(34);
    v.push(44);
    v.push(34);
    v.push(105);
    v.push(110);
    v.push(116);
    v.push(101);
    v.push(114);
    v.push(118);
    v.push(97);
    v.push(108);
    v.push(34);
    v.push(58);
    v.push(34);
    proof {
        assert(v@ =~= key_interval());
    }
    v
}

/// The closing bytes of a candle line as a vector.
fn key_tail_vec() -> (r: Vec<u8>)
    ensures
        r@ == key_tail(),
{
    let mut v: Vec<u8> = Vec::new();
    v.push(34);
    v.push(125);
    v.push(125);
    proof {
        assert(v@ =~= key_tail());
    }
    v
}

/// Encodes `rec` as one cache line (without the trailing newline), or
/// nothing when a string field carries a byte the format cannot: only
/// plain ASCII fields are encodable.
pub fn encode_candle_line(rec: &CandleDataRecord) -> (r: Option<Vec<u8>>)
    requires
        0 <= rec.timestamp < MAX_FIELD,
    ensures
        (r is Some) == (vstd::utf8::is_ascii_chars(rec.candle.close@)
            && vstd::utf8::is_ascii_chars(rec.candle.volume@) && vstd::utf8::is_ascii_chars(
            rec.candle.interval@,
        ) && all_plain(str_bytes(rec.candle.close@)) && all_plain(str_bytes(rec.candle.volume@))
            && all_plain(str_bytes(rec.candle.interval@))),
        r is Some ==> r.unwrap()@ == spec_encode_candle(
            rec.timestamp as int,
            str_bytes(rec.candle.close@),
            str_bytes(rec.candle.volume@),
            str_bytes(rec.candle.interval@),
        ),
{
    broadcast use vstd::string::is_ascii_spec_bytes;

    let cs = rec.candle.close.as_str();
    let vs = rec.candle.volume.as_str();
    let ns = rec.candle.interval.as_str();
    if !cs.is_ascii() || !vs.is_ascii() || !ns.is_ascii() {
        return Option::None;
    }
    proof {
        assert(cs.spec_bytes() =~= str_bytes(rec.candle.close@));
        assert(vs.spec_bytes() =~= str_bytes(rec.candle.volume@));
        assert(ns.spec_bytes() =~= str_bytes(rec.candle.interval@));
    }
    let cb = cs.as_bytes();
    let vb = vs.as_bytes();
    let nb = ns.as_bytes();
    if !all_plain_bytes(cb) || !all_plain_bytes(vb) || !all_plain_bytes(nb) {
        return Option::None;
    }
    let mut out: Vec<u8> = Vec::new();
    push_slice(&mut out, key_timestamp_vec().as_slice());
    proof {
        assert(out@ =~= key_timestamp());
    }
    push_digits(&mut out, rec.timestamp as u64);
    push_slice(&mut out, key_close_vec().as_slice());
    push_slice(&mut out, cb);
    push_slice(&mut out, key_volume_vec().as_slice());
    push_slice(&mut out, vb);
    push_slice(&mut out, key_interval_vec().as_slice());
    push_slice(&mut out, nb);
    push_slice(&mut out, key_tail_vec().as_slice());
    Option::Some(out)
}

/// Parses one cache line as a candle record: exactly the lines of the
/// format's shape are accepted, and the encoder's own lines give back
/// their record.
pub fn parse_candle_line(s: &[u8]) -> (r: Option<CandleDataRecord>)
    ensures
        (r is Some) == (spec_parse_candle(s@) is Some),
        spec_parse_candle(s@) is Some ==> ({
            let cl = spec_parse_candle(s@).unwrap();
            &&& r.unwrap().timestamp == cl.ts
            &&& r.unwrap().candle.close@ == cl.close.map_values(|b: u8| b as char)
            &&& r.unwrap().candle.volume@ == cl.volume.map_values(|b: u8| b as char)
            &&& r.unwrap().candle.interval@ == cl.interval.map_values(|b: u8| b as char)
        }),
{
    proof {
        lemma_pow10_vals();
    }
    let sl = s.len();
    if !has_key_timestamp(s) {
        return Option::None;
    }
    let i1 = scan_digits(s, 13);
    if i1 == 13 || i1 - 13 > 18 {
        return Option::None;
    }
    let ts = parse_digits_val(s, 13, i1);
    proof {
        lemma_pow10_increases((i1 - 13) as int, 18);
    }
    if !bytes_match_at(s, i1, key_close_vec().as_slice()) {
        return Option::None;
    }
    let c0 = i1 + 20;
    let c1 = scan_plain(s, c0);
    if !bytes_match_at(s, c1, key_volume_vec().as_slice()) {
        return Option::None;
    }
    let v0 = c1 + 12;
    let v1 = scan_plain(s, v0);
    if !bytes_match_at(s, v1, key_interval_vec().as_slice()) {
        return Option::None;
    }
    let n0 = v1 + 14;
    let n1 = scan_plain(s, n0);
    if !(s.len() - n1 == 3 && bytes_match_at(s, n1, key_tail_vec().as_slice())) {
        return Option::None;
    }
    let close_b = copy_range(s, c0, c1);
    let volume_b = copy_range(s, v0, v1);
    let interval_b = copy_range(s, n0, n1);
    Option::Some(
        CandleDataRecord {
            timestamp: ts as i64,
            candle: SerializableCandleData {
                close: bytes_to_string(close_b),
                volume: bytes_to_string(volume_b),
                interval: bytes_to_string(interval_b),
            },
        },
    )
}

} // verus!
