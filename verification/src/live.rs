//! Live mode bookkeeping: the handle that stops a running session and the
//! sliding analysis window cut from the shared capture buffer.
//!
//! Capture appends samples to a shared buffer; every tick the analysis side
//! trims the buffer to the retained length, remembering how many samples
//! were discarded from its front, and copies out the newest window. Absolute
//! sample positions (for beat timestamps) are the discarded count plus the
//! position in the buffer.

use std::sync::Arc;
use std::sync::atomic::AtomicBool;
use vstd::prelude::*;

verus! {

/// A running live session; dropping the handle does not stop it — call
/// [`SessionHandle::stop`].
pub struct SessionHandle {
    /// Set once to ask the capture and analysis threads to finish.
    pub stop: Arc<AtomicBool>,
}

/// Evidence that [`SessionHandle::stop`] was called on a handle: only that
/// method can produce one.
pub struct SessionStopped {
    handle: Ghost<SessionHandle>,
}

impl SessionStopped {
    /// The handle whose stop flag was raised.
    pub closed spec fn handle(self) -> SessionHandle {
        self.handle@
    }
}

impl SessionHandle {
    /// Ask the session's threads to finish by raising the shared stop flag,
    /// returning the evidence that this handle was stopped.
    pub fn stop(&self) -> (r: SessionStopped)
        ensures
            r.handle() == *self,
    {
        self.stop.store(true, std::sync::atomic::Ordering::Relaxed);
        SessionStopped { handle: Ghost(*self) }
    }
}

/// Samples dropped from the front of a buffer of `len` samples so that at
/// most `keep` remain.
pub open spec fn excess(len: nat, keep: nat) -> nat {
    if len > keep {
        (len - keep) as nat
    } else {
        0
    }
}

/// Position in a buffer of `len` samples where its last `window` samples
/// (or the whole buffer, if shorter) begin.
pub open spec fn window_begin(len: nat, window: nat) -> nat {
    if len > window {
        (len - window) as nat
    } else {
        0
    }
}

/// Trim `buf` to its newest `keep_n` samples, adding the number discarded to
/// `trimmed`, then copy out its newest `window_n` samples. Returns the window,
/// the absolute position of its first sample and the absolute count of
/// samples captured so far.
///
/// Trimming never changes the absolute count (`trimmed + buf.len()`), the
/// buffer never exceeds `keep_n` samples afterwards, and the window ends at
/// the newest sample.
pub fn take_window<T: Copy>(buf: &mut Vec<T>, trimmed: &mut u64, keep_n: usize, window_n: usize) -> (r: (
    Vec<T>,
    u64,
    u64,
))
    requires
        *old(trimmed) + old(buf)@.len() <= u64::MAX,
    ensures
        final(buf)@ == old(buf)@.subrange(
            excess(old(buf)@.len(), keep_n as nat) as int,
            old(buf)@.len() as int,
        ),
        *final(trimmed) == *old(trimmed) + excess(old(buf)@.len(), keep_n as nat),
        r.0@ == final(buf)@.subrange(
            window_begin(final(buf)@.len(), window_n as nat) as int,
            final(buf)@.len() as int,
        ),
        r.1 == *final(trimmed) + window_begin(final(buf)@.len(), window_n as nat),
        r.2 == *final(trimmed) + final(buf)@.len(),
        *final(trimmed) + final(buf)@.len() == *old(trimmed) + old(buf)@.len(),
        final(buf)@.len() <= keep_n,
        r.1 + r.0@.len() == r.2,
{
    let len = buf.len();
    if len > keep_n {
        let cut = len - keep_n;
        let mut kept: Vec<T> = Vec::new();
        let mut i: usize = cut;
        while i < len
            invariant
                cut <= i <= len,
                len == buf@.len(),
                kept@ == buf@.subrange(cut as int, i as int),
            decreases len - i,
        {
            kept.push(buf[i]);
            i += 1;
        }
        *buf = kept;
        *trimmed = *trimmed + cut as u64;
    }
    let now = buf.len();
    let start: usize = if now > window_n {
        now - window_n
    } else {
        0
    };
    let mut window: Vec<T> = Vec::new();
    let mut j: usize = start;
    while j < now
        invariant
            start <= j <= now,
            now == buf@.len(),
            window@ == buf@.subrange(start as int, j as int),
        decreases now - j,
    {
        window.push(buf[j]);
        j += 1;
    }
    (window, *trimmed + start as u64, *trimmed + now as u64)
}

/// Beat timestamps are absolute: if the buffer holds the capture history
/// from absolute position `trimmed` onwards, then after [`take_window`]'s
/// trim it still holds the history from the new discarded count onwards, and
/// the window it returns is exactly the history between the window's
/// reported start and the total captured so far.
pub proof fn lemma_window_is_absolute<T>(
    history: Seq<T>,
    buf: Seq<T>,
    trimmed: nat,
    keep_n: nat,
    window_n: nat,
)
    requires
        trimmed <= history.len(),
        buf == history.subrange(trimmed as int, history.len() as int),
    ensures
        ({
            let cut = excess(buf.len(), keep_n);
            let kept = buf.subrange(cut as int, buf.len() as int);
            let start = window_begin(kept.len(), window_n);
            &&& kept == history.subrange((trimmed + cut) as int, history.len() as int)
            &&& kept.subrange(start as int, kept.len() as int) == history.subrange(
                (trimmed + cut + start) as int,
                (trimmed + cut + kept.len()) as int,
            )
            &&& trimmed + cut + kept.len() == history.len()
        }),
{
    let cut = excess(buf.len(), keep_n);
    let kept = buf.subrange(cut as int, buf.len() as int);
    let start = window_begin(kept.len(), window_n);
    assert(kept =~= history.subrange((trimmed + cut) as int, history.len() as int));
    assert(kept.subrange(start as int, kept.len() as int) =~= history.subrange(
        (trimmed + cut + start) as int,
        (trimmed + cut + kept.len()) as int,
    ));
}

} // verus!
