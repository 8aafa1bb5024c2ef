use optical_detector::capture::{CaptureReply, CaptureSettings, CaptureStep};
use optical_detector::csi_color::{received_frame, CsiColorCamera};
use optical_detector::nv12::convertible;
use optical_detector::timestamp::{MonoTime, Timestamp};
use optical_detector::CameraHw;
use std::sync::mpsc;

fn run(replies: &[CaptureReply]) -> Vec<CaptureStep> {
    let mut step = CaptureStep::Create;
    let mut steps = vec![step];
    for reply in replies {
        step = step.next(*reply);
        steps.push(step);
    }
    steps
}

#[test]
fn settings_hold_the_mode() {
    let s = CaptureSettings::new(1, 1920, 1080, 30).unwrap();
    assert_eq!((s.sensor_id(), s.width(), s.height(), s.fps()), (1, 1920, 1080, 30));
    assert_eq!(s.nv12_size(), 3_110_400);
}

#[test]
fn a_frame_size_that_overflows_is_refused() {
    assert!(CaptureSettings::new(0, 65_536, 65_536, 30).is_none());
    assert!(CaptureSettings::new(0, 1 << 16, 1 << 15, 30).is_none());
    assert!(CaptureSettings::new(0, 1_431_655_765, 1, 30).is_some());
    assert!(CaptureSettings::new(0, 1_431_655_766, 1, 30).is_none());
}

#[test]
fn odd_sizes_round_down() {
    assert_eq!(CaptureSettings::new(0, 3, 3, 30).unwrap().nv12_size(), 13);
    assert_eq!(CaptureSettings::new(0, 0, 3, 30).unwrap().nv12_size(), 0);
}

#[test]
fn a_full_buffer_is_a_frame_where_both_sides_are_even() {
    for width in 0..6u32 {
        for height in 0..6u32 {
            let s = CaptureSettings::new(0, width, height, 30).unwrap();
            let even = width % 2 == 0 && height % 2 == 0;
            assert_eq!(
                convertible(s.nv12_size(), width as usize, height as usize),
                even || width == 0 || height == 0
            );
        }
    }
}

#[test]
fn a_frame_is_stamped_and_converted() {
    let s = CaptureSettings::new(0, 2, 2, 30).unwrap();
    let buf = vec![10u8, 20, 30, 250, 90, 240, 77, 77];
    let expected = vec![167, 0, 0, 177, 0, 0, 187, 0, 0, 255, 184, 183];
    assert_eq!(s.rgb(&buf, 6), expected);
    let before = Timestamp::now();
    let (ts, rgb) = s
        .frame(&buf, 6, 4_000_000_000, &MonoTime { tv_sec: 5, tv_nsec: 0 })
        .unwrap();
    let after = Timestamp::now();
    assert_eq!(rgb, expected);
    // One second old when it was stamped.
    assert!(ts.microseconds_since(&before).unwrap() >= -1_000_000);
    assert!(after.microseconds_since(&ts).unwrap() >= 1_000_000);
}

#[test]
fn a_frame_whose_age_overflows_has_no_stamp() {
    let s = CaptureSettings::new(0, 0, 0, 30).unwrap();
    assert!(s.frame(&[], 0, i64::MIN, &MonoTime { tv_sec: 0, tv_nsec: 0 }).is_none());
}

#[test]
fn sensor_that_does_not_open_ends_the_thread() {
    assert_eq!(
        run(&[CaptureReply::Created(false)]),
        vec![CaptureStep::Create, CaptureStep::Exit]
    );
}

#[test]
fn frames_are_delivered_until_a_stop() {
    assert_eq!(
        run(&[
            CaptureReply::Created(true),
            CaptureReply::StopPolled(false),
            CaptureReply::Acquired(6),
            CaptureReply::Delivered,
            CaptureReply::StopPolled(true),
            CaptureReply::Destroyed,
        ]),
        vec![
            CaptureStep::Create,
            CaptureStep::PollStop,
            CaptureStep::Acquire,
            CaptureStep::Deliver(6),
            CaptureStep::PollStop,
            CaptureStep::Destroy,
            CaptureStep::Exit,
        ]
    );
}

#[test]
fn a_failed_acquisition_closes_the_sensor() {
    assert_eq!(
        run(&[
            CaptureReply::Created(true),
            CaptureReply::StopPolled(false),
            CaptureReply::Acquired(-1),
            CaptureReply::Destroyed,
        ]),
        vec![
            CaptureStep::Create,
            CaptureStep::PollStop,
            CaptureStep::Acquire,
            CaptureStep::Destroy,
            CaptureStep::Exit,
        ]
    );
}

#[test]
fn zero_bytes_are_no_failure() {
    assert_eq!(
        CaptureStep::Acquire.next(CaptureReply::Acquired(0)),
        CaptureStep::Deliver(0)
    );
}

#[test]
fn camera_hands_out_frames_until_the_sender_is_gone() {
    let s = CaptureSettings::new(0, 640, 480, 30).unwrap();
    let (tx, rx) = mpsc::sync_channel(1);
    let mut camera = CsiColorCamera::new(&s, rx);
    assert_eq!((camera.width(), camera.height()), (640, 480));
    let ts = Timestamp::new(5, 6).unwrap();
    tx.send((ts, vec![1u8, 2, 3])).unwrap();
    assert_eq!(camera.recv_frame(), Some((ts, vec![1, 2, 3])));
    tx.send((ts, vec![4u8])).unwrap();
    drop(tx);
    assert_eq!(CameraHw::recv_frame(&mut camera), Some((ts, vec![4])));
    assert_eq!(camera.recv_frame(), None);
    assert_eq!(CameraHw::recv_frame(&mut camera), None);
}

#[test]
fn received_frames_are_handed_on_as_they_are() {
    let ts = Timestamp::new(5, 6).unwrap();
    assert_eq!(received_frame(Ok((ts, vec![9]))), Some((ts, vec![9])));
    assert_eq!(received_frame(Err(mpsc::RecvError)), None);
}
