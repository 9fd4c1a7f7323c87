//! Ownership of the microphone: live measurement and the mic monitor share
//! one input, so at most one capture activity runs at a time. Starting
//! either one stops whatever was running; stopping one leaves the other as
//! it was. Every session taken out of service is stopped, and the evidence
//! of each stop is returned.

use vstd::prelude::*;
use crate::live::{SessionHandle, SessionStopped};
use crate::monitor::{MonitorHandle, MonitorStopped};

verus! {

/// The capture activities currently running.
pub struct CaptureSessions {
    live: Option<SessionHandle>,
    monitor: Option<MonitorHandle>,
}

/// `stopped` is the evidence of stopping exactly the live session `running`
/// (none when none was running).
pub open spec fn stopped_live(running: Option<SessionHandle>, stopped: Option<SessionStopped>) -> bool {
    match running {
        Some(h) => stopped matches Some(s) && s.handle() == h,
        None => stopped is None,
    }
}

/// `stopped` is the evidence of stopping exactly the mic monitor `running`
/// (none when none was running).
pub open spec fn stopped_monitor(
    running: Option<MonitorHandle>,
    stopped: Option<MonitorStopped>,
) -> bool {
    match running {
        Some(h) => stopped matches Some(s) && s.handle() == h,
        None => stopped is None,
    }
}

impl CaptureSessions {
    /// The running live session, if any.
    pub closed spec fn live_session(self) -> Option<SessionHandle> {
        self.live
    }

    /// The running mic-monitor session, if any.
    pub closed spec fn monitor_session(self) -> Option<MonitorHandle> {
        self.monitor
    }

    /// At most one capture activity is running.
    pub open spec fn exclusive(self) -> bool {
        !(self.live_session() is Some && self.monitor_session() is Some)
    }

    /// Nothing running.
    pub fn new() -> (r: Self)
        ensures
            r.live_session() is None,
            r.monitor_session() is None,
            r.exclusive(),
    {
        CaptureSessions { live: None, monitor: None }
    }

    /// Make `handle` the running live session, stopping the previous live
    /// session and the mic monitor, if running; returns the evidence that
    /// each of them was stopped.
    pub fn start_live(&mut self, handle: SessionHandle) -> (r: (
        Option<SessionStopped>,
        Option<MonitorStopped>,
    ))
        ensures
            final(self).live_session() == Some(handle),
            final(self).monitor_session() is None,
            final(self).exclusive(),
            stopped_live(old(self).live_session(), r.0),
            stopped_monitor(old(self).monitor_session(), r.1),
    {
        let live_stopped = match self.live.take() {
            Some(prev) => Some(prev.stop()),
            None => None,
        };
        let monitor_stopped = match self.monitor.take() {
            Some(mon) => Some(mon.stop()),
            None => None,
        };
        self.live = Some(handle);
        (live_stopped, monitor_stopped)
    }

    /// Stop the live session, if one is running, returning the evidence that
    /// it was stopped.
    pub fn stop_live(&mut self) -> (r: Option<SessionStopped>)
        ensures
            final(self).live_session() is None,
            final(self).monitor_session() == old(self).monitor_session(),
            final(self).exclusive(),
            stopped_live(old(self).live_session(), r),
    {
        match self.live.take() {
            Some(session) => Some(session.stop()),
            None => None,
        }
    }

    /// Make `handle` the running mic monitor, stopping the previous monitor
    /// and the live session, if running; returns the evidence that each of
    /// them was stopped.
    pub fn start_monitor(&mut self, handle: MonitorHandle) -> (r: (
        Option<MonitorStopped>,
        Option<SessionStopped>,
    ))
        ensures
            final(self).monitor_session() == Some(handle),
            final(self).live_session() is None,
            final(self).exclusive(),
            stopped_monitor(old(self).monitor_session(), r.0),
            stopped_live(old(self).live_session(), r.1),
    {
        let monitor_stopped = match self.monitor.take() {
            Some(prev) => Some(prev.stop()),
            None => None,
        };
        let live_stopped = match self.live.take() {
            Some(live) => Some(live.stop()),
            None => None,
        };
        self.monitor = Some(handle);
        (monitor_stopped, live_stopped)
    }

    /// Stop the mic monitor, if one is running, returning the evidence that
    /// it was stopped.
    pub fn stop_monitor(&mut self) -> (r: Option<MonitorStopped>)
        ensures
            final(self).monitor_session() is None,
            final(self).live_session() == old(self).live_session(),
            final(self).exclusive(),
            stopped_monitor(old(self).monitor_session(), r),
    {
        match self.monitor.take() {
            Some(mon) => Some(mon.stop()),
            None => None,
        }
    }

    /// The running mic monitor, if any (to adjust its gain).
    pub fn monitor(&self) -> (r: Option<&MonitorHandle>)
        ensures
            r is None <==> self.monitor_session() is None,
            r matches Some(m) ==> self.monitor_session() == Some(*m),
    {
        match &self.monitor {
            Some(m) => Some(m),
            None => None,
        }
    }
}

} // verus!
