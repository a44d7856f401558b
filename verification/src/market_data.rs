//! Decisions of the market-data recording service: classifying its errors,
//! counting messages toward a periodic reconnect, and deciding when the
//! write-behind buffers are flushed to the cache.

use vstd::prelude::*;

verus! {

/// What went wrong while recording market data.
#[derive(Debug)]
pub enum MarketDataError {
    /// A feed subscribe or unsubscribe call failed.
    SubscriptionError(String),
    /// Writing to the cache failed.
    CacheError(String),
    /// The transport failed; a resubscription cycle may recover it.
    ConnectionError(String),
}

impl MarketDataError {
    /// Whether the error ends the service: only a connection error is
    /// recovered from, by unsubscribing and resubscribing; every other
    /// error is fatal.
    pub fn is_fatal(&self) -> (r: bool)
        ensures
            r == !(*self is ConnectionError),
    {
        match self {
            MarketDataError::ConnectionError(_) => false,
            MarketDataError::SubscriptionError(_) => true,
            MarketDataError::CacheError(_) => true,
        }
    }

    /// The description carried by the error.
    pub fn message(&self) -> (r: &String)
        ensures
            r@ == match *self {
                MarketDataError::SubscriptionError(m) => m@,
                MarketDataError::CacheError(m) => m@,
                MarketDataError::ConnectionError(m) => m@,
            },
    {
        match self {
            MarketDataError::SubscriptionError(m) => m,
            MarketDataError::CacheError(m) => m,
            MarketDataError::ConnectionError(m) => m,
        }
    }
}

/// The message counter behind the periodic reconnection: after
/// `max_messages` handled messages the service resubscribes and the count
/// starts over.
#[derive(Clone, Copy, Debug)]
pub struct MessageCounter {
    pub message_count: u64,
    pub max_messages: u64,
}

impl MessageCounter {
    /// A fresh counter that triggers a reconnect every `max_messages`
    /// messages.
    pub fn new(max_messages: u64) -> (r: MessageCounter)
        ensures
            r.message_count == 0,
            r.max_messages == max_messages,
    {
        MessageCounter { message_count: 0, max_messages }
    }

    /// Counts one handled message and reports whether the reconnection
    /// threshold was reached; reaching it restarts the count.
    pub fn record_message(&mut self) -> (reconnect: bool)
        requires
            old(self).message_count < u64::MAX,
        ensures
            final(self).max_messages == old(self).max_messages,
            reconnect == (old(self).message_count + 1 >= old(self).max_messages),
            reconnect ==> final(self).message_count == 0,
            !reconnect ==> final(self).message_count == old(self).message_count + 1,
    {
        self.message_count = self.message_count + 1;
        if self.message_count >= self.max_messages {
            self.message_count = 0;
            true
        } else {
            false
        }
    }
}

/// Whether the write-behind buffers are flushed now: some buffer reached
/// the batch size, or the flush interval has passed since the last flush.
pub fn should_flush(
    largest_tick_batch: usize,
    largest_candle_batch: usize,
    batch_size: usize,
    elapsed_secs: u64,
    flush_interval_secs: u64,
) -> (r: bool)
    ensures
        r == (largest_tick_batch >= batch_size || largest_candle_batch >= batch_size
            || elapsed_secs >= flush_interval_secs),
{
    largest_tick_batch >= batch_size || largest_candle_batch >= batch_size || elapsed_secs
        >= flush_interval_secs
}

} // verus!
