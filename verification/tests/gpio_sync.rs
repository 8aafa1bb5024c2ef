use optical_detector::gpio_sync::{
    chip_path, LineRequest, ListenerReply, ListenerStep, GPIO_V2_GET_LINE_IOCTL,
    GPIO_V2_LINE_FLAG_EDGE_RISING, GPIO_V2_LINE_FLAG_INPUT, LINE_EVENT_SIZE, LINE_REQUEST_SIZE,
};

#[test]
fn request_number_names_direction_size_type_and_command() {
    assert_eq!(GPIO_V2_GET_LINE_IOCTL, 0xC250_B407);
    assert_eq!((GPIO_V2_GET_LINE_IOCTL >> 16) & 0x3FFF, LINE_REQUEST_SIZE as u64);
}

#[test]
fn request_asks_for_rising_edges_of_one_input() {
    let r = LineRequest::rising_edges(144);
    assert_eq!(r.offsets[0], 144);
    assert!(r.offsets[1..].iter().all(|o| *o == 0));
    assert_eq!(&r.consumer[..16], b"optical_detector");
    assert!(r.consumer[16..].iter().all(|b| *b == 0));
    assert_eq!(r.flags, GPIO_V2_LINE_FLAG_INPUT | GPIO_V2_LINE_FLAG_EDGE_RISING);
    assert_eq!(r.flags, 0x14);
    assert_eq!((r.num_attrs, r.num_lines, r.event_buffer_size, r.fd), (0, 1, 0, 0));
}

#[test]
fn chips_live_under_dev() {
    assert_eq!(chip_path("gpiochip0"), "/dev/gpiochip0");
    assert_eq!(chip_path(""), "/dev/");
}

#[test]
fn chip_that_does_not_open_ends_the_listener() {
    let step = ListenerStep::OpenChip;
    assert_eq!(step.next(ListenerReply::Opened(false)), ListenerStep::Exit);
    assert_eq!(step.next(ListenerReply::Opened(true)), ListenerStep::RequestLine);
}

#[test]
fn line_that_is_not_granted_ends_the_listener() {
    let step = ListenerStep::RequestLine;
    for (ret, fd) in [(-1, 3), (0, -1), (-1, -1)] {
        assert_eq!(step.next(ListenerReply::Requested { ret, fd }), ListenerStep::Exit);
    }
    assert_eq!(
        step.next(ListenerReply::Requested { ret: 0, fd: 0 }),
        ListenerStep::ReadEvent
    );
}

#[test]
fn whole_events_are_passed_on_and_others_dropped() {
    let step = ListenerStep::ReadEvent;
    let n = LINE_EVENT_SIZE as isize;
    assert_eq!(n, 48);
    let forward = step.next(ListenerReply::Read { n, timestamp_ns: 123 });
    assert_eq!(forward, ListenerStep::Forward(123));
    assert_eq!(forward.next(ListenerReply::Forwarded), ListenerStep::ReadEvent);
    for n in [-1, 0, 47, 49] {
        assert_eq!(
            step.next(ListenerReply::Read { n, timestamp_ns: 123 }),
            ListenerStep::ReadEvent
        );
    }
}

#[test]
fn event_times_are_read_as_signed() {
    let step = ListenerStep::ReadEvent;
    let read = |timestamp_ns: u64| step.next(ListenerReply::Read { n: 48, timestamp_ns });
    assert_eq!(read(i64::MAX as u64), ListenerStep::Forward(i64::MAX));
    assert_eq!(read(1 << 63), ListenerStep::Forward(i64::MIN));
    assert_eq!(read(u64::MAX), ListenerStep::Forward(-1));
}
