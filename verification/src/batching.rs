//! The inference client's batching rendezvous: when to ship the pending
//! batch to the endpoint.
//!
//! The transport — the RPC connection, the deadline timer, the channel —
//! stays outside the library; it records arrivals here and ships exactly
//! when this state says so: when the batch is full, or when the deadline
//! set by the batch's first frame has elapsed.

use vstd::prelude::*;

verus! {

/// The pending batch: how many frames wait, and when the first of them
/// arrived.  The deadline is anchored to that first arrival alone, so it
/// resets only when an empty batch becomes non-empty.
#[derive(Debug, Clone, Copy, PartialEq, Eq, Structural)]
pub struct BatchState {
    /// Frames waiting to be shipped
    pub pending: usize,
    /// Arrival instant of the first pending frame, milliseconds
    pub first_at_ms: Option<u64>,
}

/// Whether a batch ships now: it is full, or it is non-empty and the
/// deadline anchored to its first frame has elapsed.
pub open spec fn spec_ship(
    pending: int,
    first_at_ms: Option<u64>,
    batch_size: int,
    timeout_ms: int,
    now_ms: int,
) -> bool {
    ||| pending >= batch_size
    ||| (pending > 0 && first_at_ms is Some && now_ms - first_at_ms.unwrap() >= timeout_ms)
}

impl BatchState {
    /// An empty batch with no deadline.
    pub fn new() -> (r: Self)
        ensures
            r.pending == 0,
            r.first_at_ms is None,
    {
        BatchState { pending: 0, first_at_ms: None }
    }

    /// Record one arriving frame; the deadline anchor is set only when
    /// the batch was empty.
    pub fn record_frame(&mut self, now_ms: u64)
        requires
            old(self).pending < usize::MAX,
        ensures
            final(self).pending == old(self).pending + 1,
            final(self).first_at_ms == if old(self).pending == 0 {
                Some(now_ms)
            } else {
                old(self).first_at_ms
            },
    {
        if self.pending == 0 {
            self.first_at_ms = Some(now_ms);
        }
        self.pending = self.pending + 1;
    }

    /// Whether the batch ships at clock reading `now_ms`.
    pub fn should_ship(&self, batch_size: usize, timeout_ms: u64, now_ms: u64) -> (r: bool)
        ensures
            r == spec_ship(
                self.pending as int,
                self.first_at_ms,
                batch_size as int,
                timeout_ms as int,
                now_ms as int,
            ),
    {
        if self.pending >= batch_size {
            return true;
        }
        match self.first_at_ms {
            Some(t) => self.pending > 0 && now_ms >= t && now_ms - t >= timeout_ms,
            None => false,
        }
    }

    /// Ship the batch: everything pending leaves and the deadline clears.
    pub fn ship(&mut self) -> (count: usize)
        ensures
            count == old(self).pending,
            final(self).pending == 0,
            final(self).first_at_ms is None,
    {
        let count = self.pending;
        self.pending = 0;
        self.first_at_ms = None;
        count
    }
}

/// A batch never outlives its deadline unshipped: at any instant past
/// the first arrival plus the timeout, a non-empty batch ships.
pub proof fn lemma_batch_deadline(
    pending: int,
    first_at_ms: u64,
    batch_size: int,
    timeout_ms: int,
    now_ms: int,
)
    requires
        pending > 0,
        now_ms - first_at_ms >= timeout_ms,
    ensures
        spec_ship(pending, Some(first_at_ms), batch_size, timeout_ms, now_ms),
{
}

} // verus!
