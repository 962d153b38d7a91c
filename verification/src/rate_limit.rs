//! Token-bucket state for pacing outbound identification calls.
//!
//! The bucket holds the admission decision only: a timing process (the
//! driver's) calls `refill` once per interval, workers call `try_acquire`
//! before each outbound call and wait for the next refill when no token is
//! left. Admission is serialized through the bucket; processing is not.

use vstd::prelude::*;

verus! {

/// A token bucket with burst size `capacity`, refilled by `quantum` tokens
/// each `interval_ms` milliseconds. Starts full, so a fresh bucket admits a
/// burst at once.
pub struct TokenBucket {
    pub capacity: u64,
    pub quantum: u64,
    pub interval_ms: u64,
    pub tokens: u64,
}

impl TokenBucket {
    /// The bucket never holds more than its capacity.
    pub open spec fn wf(self) -> bool {
        self.tokens <= self.capacity
    }

    /// A full bucket.
    pub fn new(capacity: u64, quantum: u64, interval_ms: u64) -> (r: Self)
        ensures
            r.wf(),
            r.capacity == capacity,
            r.quantum == quantum,
            r.interval_ms == interval_ms,
            r.tokens == capacity,
    {
        TokenBucket { capacity, quantum, interval_ms, tokens: capacity }
    }

    /// One tick of the timing process: adds the quantum, capped at capacity.
    pub fn refill(&mut self)
        requires
            old(self).wf(),
        ensures
            final(self).wf(),
            final(self).capacity == old(self).capacity,
            final(self).quantum == old(self).quantum,
            final(self).interval_ms == old(self).interval_ms,
            old(self).tokens + old(self).quantum >= old(self).capacity ==> final(self).tokens
                == old(self).capacity,
            old(self).tokens + old(self).quantum < old(self).capacity ==> final(self).tokens
                == old(self).tokens + old(self).quantum,
    {
        if self.quantum >= self.capacity - self.tokens {
            self.tokens = self.capacity;
        } else {
            self.tokens = self.tokens + self.quantum;
        }
    }

    /// Takes one token when one is available; a `false` answer means the
    /// caller must wait for a refill and ask again.
    pub fn try_acquire(&mut self) -> (r: bool)
        requires
            old(self).wf(),
        ensures
            final(self).wf(),
            final(self).capacity == old(self).capacity,
            final(self).quantum == old(self).quantum,
            final(self).interval_ms == old(self).interval_ms,
            r == (old(self).tokens > 0),
            old(self).tokens > 0 ==> final(self).tokens == old(self).tokens - 1,
            old(self).tokens == 0 ==> final(self).tokens == 0,
    {
        if self.tokens > 0 {
            self.tokens = self.tokens - 1;
            true
        } else {
            false
        }
    }
}

} // verus!
