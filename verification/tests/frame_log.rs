use optical_detector::frame_log::{warmup_frames, FrameLog, LatencyOverflow};
use optical_detector::save_slot::SaveSlot;
use optical_detector::timestamp::{Timestamp, MAX_SECS, MIN_SECS};

fn at(secs: i64, nanos: u32) -> Timestamp {
    Timestamp::new(secs, nanos).unwrap()
}

#[test]
fn warmup_setting_is_a_decimal_number() {
    assert_eq!(warmup_frames(Some("25")), 25);
    assert_eq!(warmup_frames(Some("+7")), 7);
    assert_eq!(warmup_frames(Some("007")), 7);
    assert_eq!(warmup_frames(Some("0")), 0);
    assert_eq!(warmup_frames(Some("18446744073709551615")), u64::MAX);
}

#[test]
fn warmup_defaults_to_one_hundred() {
    assert_eq!(warmup_frames(None), 100);
    for setting in ["", "+", "-", "-1", "++1", " 5", "5 ", "1_000", "0x10", "1.5", "many"] {
        assert_eq!(warmup_frames(Some(setting)), 100);
    }
    assert_eq!(warmup_frames(Some("18446744073709551616")), 100);
    assert_eq!(warmup_frames(Some("\u{0663}")), 100);
}

#[test]
fn first_frame_after_warmup_is_saved_once() {
    let mut log = FrameLog::new(2);
    let mut first = Vec::new();
    let mut latest = Vec::new();
    for i in 1..=5u64 {
        let report = log.record_at(&at(10, 0), &at(10, 0)).unwrap();
        assert_eq!(report.frame_idx, i);
        if report.save_first {
            first.push(i);
        }
        if report.save_latest {
            latest.push(i);
        }
    }
    assert_eq!(first, vec![3]);
    assert_eq!(latest, vec![3, 4, 5]);
    assert_eq!(log.frames(), 5);
    assert_eq!(log.warmup(), 2);
}

#[test]
fn without_warmup_the_very_first_frame_is_saved() {
    let report = FrameLog::new(0).record_at(&at(10, 0), &at(10, 0)).unwrap();
    assert!(report.save_first);
    assert!(report.save_latest);
}

#[test]
fn largest_latency_is_kept() {
    let mut log = FrameLog::new(100);
    let captured = at(1_700_000_000, 123_456_789);
    let mut seen = Vec::new();
    for us in [33_000i64, 12_345, 50_001, 7] {
        let received = captured.minus_nanoseconds(-us * 1000).unwrap();
        let report = log.record_at(&captured, &received).unwrap();
        assert_eq!(report.latency_us, us);
        assert_eq!(report.time_of_day, "22:13:20.123456");
        seen.push(report.max_latency_us);
    }
    assert_eq!(seen, vec![33_000, 33_000, 50_001, 50_001]);
    assert_eq!(log.max_latency_us(), 50_001);
}

#[test]
fn negative_latency_is_reported_but_never_the_largest() {
    let mut log = FrameLog::new(100);
    let report = log.record_at(&at(10, 5_000), &at(10, 0)).unwrap();
    assert_eq!(report.latency_us, -5);
    assert_eq!(report.max_latency_us, 0);
}

#[test]
fn latency_that_overflows_leaves_the_account_alone() {
    let mut log = FrameLog::new(0);
    log.record_at(&at(0, 0), &at(0, 9_000)).unwrap();
    let r = log.record_at(&at(MIN_SECS, 0), &at(MAX_SECS, 0));
    let e = r.err().unwrap();
    assert_eq!(e, LatencyOverflow);
    assert_eq!(e.message(), "latency overflow");
    assert_eq!(log.frames(), 1);
    assert_eq!(log.max_latency_us(), 9);
}

#[test]
fn a_frame_is_received_now() {
    let mut log = FrameLog::new(0);
    let captured = Timestamp::now().minus_nanoseconds(5_000_000).unwrap();
    let report = log.record(&captured).unwrap();
    assert!(report.latency_us >= 5_000);
    assert_eq!(report.max_latency_us, report.latency_us);
    assert_eq!(report.frame_idx, 1);
}

#[test]
fn only_the_latest_frame_waits() {
    let mut slot = SaveSlot::new();
    assert_eq!(slot.take(), None);
    slot.put(vec![1, 2]);
    slot.put(vec![3]);
    assert_eq!(slot.take(), Some(vec![3]));
    assert_eq!(slot.take(), None);
}
