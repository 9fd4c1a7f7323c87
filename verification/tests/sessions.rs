use std::collections::VecDeque;
use std::sync::atomic::{AtomicBool, AtomicU32, Ordering};
use std::sync::Arc;

use timegrapherq::capture::CaptureSessions;
use timegrapherq::live::{take_window, SessionHandle};
use timegrapherq::monitor::{push_bounded, MonitorHandle};

fn live_handle() -> (SessionHandle, Arc<AtomicBool>) {
    let flag = Arc::new(AtomicBool::new(false));
    (SessionHandle { stop: Arc::clone(&flag) }, flag)
}

fn monitor_handle() -> (MonitorHandle, Arc<AtomicBool>, Arc<AtomicU32>) {
    let flag = Arc::new(AtomicBool::new(false));
    let gain = Arc::new(AtomicU32::new(1.0f32.to_bits()));
    (
        MonitorHandle {
            stop: Arc::clone(&flag),
            gain: Arc::clone(&gain),
        },
        flag,
        gain,
    )
}

#[test]
fn session_stop_raises_the_flag() {
    let (h, flag) = live_handle();
    assert!(!flag.load(Ordering::Relaxed));
    h.stop();
    assert!(flag.load(Ordering::Relaxed));
}

#[test]
fn monitor_stop_and_gain() {
    let (h, flag, gain) = monitor_handle();
    h.set_gain_bits(0.5f32.to_bits());
    assert_eq!(f32::from_bits(gain.load(Ordering::Relaxed)), 0.5);
    h.stop();
    assert!(flag.load(Ordering::Relaxed));
}

#[test]
fn only_one_capture_activity_runs() {
    let mut s = CaptureSessions::new();
    assert!(s.monitor().is_none());

    let (mon, mon_flag, _) = monitor_handle();
    s.start_monitor(mon);
    assert!(s.monitor().is_some());

    // Starting live stops the monitor.
    let (live1, live1_flag) = live_handle();
    s.start_live(live1);
    assert!(mon_flag.load(Ordering::Relaxed));
    assert!(s.monitor().is_none());

    // Starting live again stops the previous live session.
    let (live2, live2_flag) = live_handle();
    s.start_live(live2);
    assert!(live1_flag.load(Ordering::Relaxed));
    assert!(!live2_flag.load(Ordering::Relaxed));

    // Starting the monitor stops live.
    let (mon2, mon2_flag, _) = monitor_handle();
    s.start_monitor(mon2);
    assert!(live2_flag.load(Ordering::Relaxed));
    assert!(!mon2_flag.load(Ordering::Relaxed));

    s.stop_live();
    assert!(!mon2_flag.load(Ordering::Relaxed));
    s.stop_monitor();
    assert!(mon2_flag.load(Ordering::Relaxed));
    assert!(s.monitor().is_none());
}

#[test]
fn live_window_trims_and_keeps_absolute_time() {
    // Each sample holds its absolute position in the capture history.
    let mut buf: Vec<u64> = (100..110).collect();
    let mut trimmed: u64 = 100;
    let (window, start, total) = take_window(&mut buf, &mut trimmed, 6, 4);
    assert_eq!(buf, vec![104, 105, 106, 107, 108, 109]);
    assert_eq!(trimmed, 104);
    assert_eq!(window, vec![106, 107, 108, 109]);
    assert_eq!(start, 106);
    assert_eq!(total, 110);
    assert_eq!(window, (start..total).collect::<Vec<u64>>());

    // The next tick, after more samples arrived.
    buf.extend(110..113);
    let (window, start, total) = take_window(&mut buf, &mut trimmed, 6, 4);
    assert_eq!(trimmed, 107);
    assert_eq!(window, (start..total).collect::<Vec<u64>>());
    assert_eq!(total, 113);

    // A short buffer is neither trimmed nor windowed below its length.
    let mut short: Vec<u32> = vec![1, 2];
    let mut t: u64 = 0;
    let (w, s, n) = take_window(&mut short, &mut t, 6, 4);
    assert_eq!(short, vec![1, 2]);
    assert_eq!((w, s, n, t), (vec![1, 2], 0, 2, 0));
}

#[test]
fn passthrough_ring_is_bounded() {
    let mut ring: VecDeque<u8> = VecDeque::from(vec![1, 2]);
    push_bounded(&mut ring, &[3, 4, 5], 4);
    assert_eq!(ring, VecDeque::from(vec![2, 3, 4, 5]));
    push_bounded(&mut ring, &[], 2);
    assert_eq!(ring, VecDeque::from(vec![4, 5]));
    push_bounded(&mut ring, &[6], 10);
    assert_eq!(ring, VecDeque::from(vec![4, 5, 6]));
    push_bounded(&mut ring, &[7], 0);
    assert!(ring.is_empty());
}
