use prerollvalve::{ControlEvent, FlowError, Frame, PrerollValve, RecordingSink};

fn frame(tag: u8, ts: u64, keyframe: bool) -> Frame {
    Frame { data: vec![tag], timestamp: ts, is_keyframe: keyframe }
}

const MS: u64 = 1_000_000;

#[test]
fn default_settings() {
    let v = PrerollValve::new();
    assert!(!v.is_open());
    assert_eq!(v.max_history(), 5000);
    assert!(!v.debug_enabled());
    assert_eq!(v.backlog.len(), 0);
}

#[test]
fn pass_through_when_open_and_empty() {
    let mut v = PrerollValve::new();
    v.set_open(true);
    let mut s = RecordingSink::new();
    let f = frame(1, 42, true);
    let r = v.on_frame(f.clone(), &mut s);
    assert_eq!(r, Ok(()));
    assert_eq!(s.frames().as_slice(), &[f]);
    assert_eq!(v.backlog.len(), 0);
}

#[test]
fn buffering_when_closed() {
    let mut v = PrerollValve::new();
    let mut s = RecordingSink::new();
    let f = frame(1, 42, true);
    let r = v.on_frame(f.clone(), &mut s);
    assert_eq!(r, Ok(()));
    assert_eq!(s.frames().len(), 0);
    assert_eq!(v.backlog.as_slice(), &[f]);
}

#[test]
fn pruning_drops_expired_head_entries() {
    let mut v = PrerollValve::new();
    v.set_max_history(1);
    let mut s = RecordingSink::new();
    assert_eq!(v.on_frame(frame(0, 0, true), &mut s), Ok(()));
    assert_eq!(v.on_frame(frame(1, MS / 2, false), &mut s), Ok(()));
    assert_eq!(v.backlog.len(), 2);
    assert_eq!(v.on_frame(frame(2, 5 * MS / 2, false), &mut s), Ok(()));
    assert_eq!(v.backlog.as_slice(), &[frame(2, 5 * MS / 2, false)]);
    assert_eq!(s.frames().len(), 0);
}

#[test]
fn pruning_bound_holds_for_survivors() {
    let mut v = PrerollValve::new();
    v.set_max_history(1);
    let mut s = RecordingSink::new();
    assert_eq!(v.on_frame(frame(0, 2 * MS, true), &mut s), Ok(()));
    assert_eq!(v.on_frame(frame(1, 5 * MS / 2, false), &mut s), Ok(()));
    let latest = 5 * MS / 2;
    assert_eq!(v.backlog.len(), 2);
    for f in v.backlog.iter() {
        assert!(latest - f.timestamp <= MS);
    }
}

#[test]
fn newest_frame_is_never_pruned_by_itself() {
    let mut v = PrerollValve::new();
    v.set_max_history(0);
    let mut s = RecordingSink::new();
    assert_eq!(v.on_frame(frame(0, 10 * MS, false), &mut s), Ok(()));
    assert_eq!(v.backlog.len(), 1);
    assert_eq!(v.on_frame(frame(1, 11 * MS, false), &mut s), Ok(()));
    assert_eq!(v.backlog.as_slice(), &[frame(1, 11 * MS, false)]);
}

#[test]
fn out_of_order_timestamp_is_left_alone() {
    let mut v = PrerollValve::new();
    v.set_max_history(1);
    let mut s = RecordingSink::new();
    assert_eq!(v.on_frame(frame(0, 5 * MS, false), &mut s), Ok(()));
    assert_eq!(v.on_frame(frame(1, 0, false), &mut s), Ok(()));
    assert_eq!(v.backlog.len(), 2);
}

#[test]
fn huge_history_window_saturates_and_keeps_everything() {
    let mut v = PrerollValve::new();
    v.set_max_history(u64::MAX);
    let mut s = RecordingSink::new();
    assert_eq!(v.on_frame(frame(0, 0, true), &mut s), Ok(()));
    assert_eq!(v.on_frame(frame(1, u64::MAX, false), &mut s), Ok(()));
    assert_eq!(v.backlog.len(), 2);
}

#[test]
fn flush_from_keyframe() {
    let mut v = PrerollValve::new();
    let mut s = RecordingSink::new();
    let flags = [false, false, true, false, false];
    for (i, kf) in flags.iter().enumerate() {
        assert_eq!(v.on_frame(frame(i as u8, i as u64, *kf), &mut s), Ok(()));
    }
    assert_eq!(v.backlog.len(), 5);
    v.set_open(true);
    let live = frame(9, 9, false);
    assert_eq!(v.on_frame(live.clone(), &mut s), Ok(()));
    assert_eq!(
        s.frames().as_slice(),
        &[frame(2, 2, true), frame(3, 3, false), frame(4, 4, false), live]
    );
    assert_eq!(v.backlog.len(), 0);
}

#[test]
fn no_keyframe_degraded_flush_forwards_everything() {
    let mut v = PrerollValve::new();
    let mut s = RecordingSink::new();
    for i in 0..3u8 {
        assert_eq!(v.on_frame(frame(i, i as u64, false), &mut s), Ok(()));
    }
    v.set_open(true);
    let live = frame(9, 9, false);
    assert_eq!(v.on_frame(live.clone(), &mut s), Ok(()));
    assert_eq!(
        s.frames().as_slice(),
        &[frame(0, 0, false), frame(1, 1, false), frame(2, 2, false), live]
    );
    assert_eq!(v.backlog.len(), 0);
}

#[test]
fn live_frame_follows_the_whole_flush() {
    let mut v = PrerollValve::new();
    let mut s = RecordingSink::new();
    for i in 0..4u8 {
        assert_eq!(v.on_frame(frame(i, i as u64, i == 0), &mut s), Ok(()));
    }
    v.set_open(true);
    let live = frame(9, 9, false);
    assert_eq!(v.on_frame(live.clone(), &mut s), Ok(()));
    let got = s.frames();
    assert_eq!(got.len(), 5);
    assert_eq!(got[4], live);
    for (i, f) in got.iter().take(4).enumerate() {
        assert_eq!(f.data, vec![i as u8]);
    }
}

#[test]
fn valve_stays_pass_through_while_open() {
    let mut v = PrerollValve::new();
    let mut s = RecordingSink::new();
    assert_eq!(v.on_frame(frame(0, 0, true), &mut s), Ok(()));
    v.set_open(true);
    assert_eq!(v.on_frame(frame(1, 1, false), &mut s), Ok(()));
    assert_eq!(v.on_frame(frame(2, 2, false), &mut s), Ok(()));
    assert_eq!(
        s.frames().as_slice(),
        &[frame(0, 0, true), frame(1, 1, false), frame(2, 2, false)]
    );
    assert_eq!(v.backlog.len(), 0);
}

#[test]
fn settings_round_trip() {
    let mut v = PrerollValve::new();
    for val in [0u64, 1, 5000, 123_456, u64::MAX] {
        v.set_max_history(val);
        assert_eq!(v.max_history(), val);
    }
    v.set_open(true);
    assert!(v.is_open());
    v.set_open(false);
    assert!(!v.is_open());
    v.set_debug(true);
    assert!(v.debug_enabled());
    v.set_debug(false);
    assert!(!v.debug_enabled());
    assert_eq!(v.max_history(), u64::MAX);
}

#[test]
fn downstream_failure_aborts_flush() {
    let mut v = PrerollValve::new();
    let mut s = RecordingSink::failing_from(1);
    for i in 0..5u8 {
        assert_eq!(v.on_frame(frame(i, i as u64, i == 0), &mut s), Ok(()));
    }
    v.set_open(true);
    let live = frame(9, 9, false);
    let r = v.on_frame(live.clone(), &mut s);
    assert_eq!(r, Err(FlowError::Error));
    assert_eq!(s.frames().as_slice(), &[frame(0, 0, true)]);
    assert_eq!(v.backlog.len(), 0);
    assert!(!s.frames().contains(&live));
}

#[test]
fn downstream_failure_on_live_frame_is_propagated() {
    let mut v = PrerollValve::new();
    v.set_open(true);
    let mut s = RecordingSink::failing_from(0);
    let r = v.on_frame(frame(0, 0, true), &mut s);
    assert_eq!(r, Err(FlowError::Error));
    assert_eq!(s.frames().len(), 0);
    assert_eq!(v.backlog.len(), 0);
}

#[test]
fn frame_timestamp_prefers_pts_then_dts_then_zero() {
    let f = Frame::new(vec![1], Some(7), Some(3), false);
    assert_eq!(f.timestamp, 7);
    let f = Frame::new(vec![2], None, Some(3), true);
    assert_eq!(f.timestamp, 3);
    assert!(!f.is_keyframe);
    let f = Frame::new(vec![3], None, None, false);
    assert_eq!(f.timestamp, 0);
    assert!(f.is_keyframe);
}

#[test]
fn control_events_are_forwarded_unconditionally() {
    let mut v = PrerollValve::new();
    let mut s = RecordingSink::new();
    assert_eq!(v.on_frame(frame(0, 0, false), &mut s), Ok(()));
    let e = ControlEvent { data: vec![0xEE] };
    assert!(v.on_control_event(e.clone(), &mut s));
    assert_eq!(s.events().as_slice(), &[e]);
    assert_eq!(s.frames().len(), 0);
    assert_eq!(v.backlog.len(), 1);
}

#[test]
fn control_event_failure_is_reported() {
    let v = PrerollValve::new();
    let mut s = RecordingSink::refusing_events();
    let e = ControlEvent { data: vec![1] };
    assert!(!v.on_control_event(e, &mut s));
    assert_eq!(s.events().len(), 0);
}
