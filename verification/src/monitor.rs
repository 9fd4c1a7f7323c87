//! Mic monitor bookkeeping: the handle of a running monitor session and the
//! bounded passthrough buffer that caps monitoring latency.

use std::sync::Arc;
use std::sync::atomic::{AtomicBool, AtomicU32};
use std::collections::VecDeque;
use vstd::prelude::*;

verus! {

/// Handle to a running monitor session.
pub struct MonitorHandle {
    /// Set once to ask the monitor thread to finish.
    pub stop: Arc<AtomicBool>,
    /// Bit pattern of the linear passthrough gain, read by the output stream.
    pub gain: Arc<AtomicU32>,
}

/// Evidence that [`MonitorHandle::stop`] was called on a handle: only that
/// method can produce one.
pub struct MonitorStopped {
    handle: Ghost<MonitorHandle>,
}

impl MonitorStopped {
    /// The handle whose stop flag was raised.
    pub closed spec fn handle(self) -> MonitorHandle {
        self.handle@
    }
}

impl MonitorHandle {
    /// Ask the monitor thread to finish by raising the shared stop flag,
    /// returning the evidence that this handle was stopped.
    pub fn stop(&self) -> (r: MonitorStopped)
        ensures
            r.handle() == *self,
    {
        self.stop.store(true, std::sync::atomic::Ordering::Relaxed);
        MonitorStopped { handle: Ghost(*self) }
    }

    /// Publish a new passthrough gain, given as the bit pattern of a 32-bit
    /// float, to the running output stream.
    pub fn set_gain_bits(&self, gain_bits: u32) {
        self.gain.store(gain_bits, std::sync::atomic::Ordering::Relaxed);
    }
}

/// The newest `cap` elements of `s` (all of `s` if it is shorter).
pub open spec fn newest<T>(s: Seq<T>, cap: nat) -> Seq<T> {
    if s.len() > cap {
        s.subrange(s.len() - cap, s.len() as int)
    } else {
        s
    }
}

/// Append `samples` to the passthrough ring, then drop its oldest samples
/// until at most `cap` remain, so playback never lags capture by more than
/// `cap` samples.
pub fn push_bounded<T: Copy>(ring: &mut VecDeque<T>, samples: &[T], cap: usize)
    requires
        old(ring)@.len() + samples@.len() <= usize::MAX,
    ensures
        final(ring)@ == newest(old(ring)@ + samples@, cap as nat),
        final(ring)@.len() <= cap,
{
    let ghost all = old(ring)@ + samples@;
    let ghost start = ring@.len();
    let mut i: usize = 0;
    while i < samples.len()
        invariant
            i <= samples@.len(),
            start + samples@.len() <= usize::MAX,
            all == old(ring)@ + samples@,
            start == old(ring)@.len(),
            ring@ == all.subrange(0, start + i),
        decreases samples@.len() - i,
    {
        ring.push_back(samples[i]);
        i += 1;
        assert(ring@ =~= all.subrange(0, start + i));
    }
    assert(ring@ =~= all);
    let ghost dropped: int = 0;
    while ring.len() > cap
        invariant
            0 <= dropped <= all.len(),
            dropped == 0 || all.len() - dropped >= cap,
            ring@ == all.subrange(dropped, all.len() as int),
        decreases ring@.len(),
    {
        ring.pop_front();
        proof {
            dropped = dropped + 1;
        }
        assert(ring@ =~= all.subrange(dropped, all.len() as int));
    }
    assert(ring@ =~= newest(all, cap as nat));
}

} // verus!
