//! What the listener on the camera's SYNC line does: the request that it makes
//! of the GPIO character device, and what it makes of the events it reads.

use vstd::prelude::*;

verus! {

/// Line flag: the line is an input.
pub const GPIO_V2_LINE_FLAG_INPUT: u64 = 0x04;

/// Line flag: rising edges are reported.
pub const GPIO_V2_LINE_FLAG_EDGE_RISING: u64 = 0x10;

/// Size in bytes of a line request, as the kernel lays it out.
pub const LINE_REQUEST_SIZE: usize = 592;

/// Size in bytes of a line event, as the kernel lays it out.
pub const LINE_EVENT_SIZE: usize = 48;

/// Request number of the `ioctl` that asks for lines: direction (write and
/// read), size of the argument, type and command.
pub const GPIO_V2_GET_LINE_IOCTL: u64 = (3u64 << 30) | (592u64 << 16) | (0xB4u64 << 8) | 0x07u64;

/// Name under which the line is held.
pub open spec fn consumer_label() -> Seq<char> {
    "optical_detector"@
}

/// A request for lines of a GPIO chip, without its reserved fields.
pub struct LineRequest {
    /// Offsets of the lines on the chip.
    pub offsets: [u32; 64],
    /// Name of the holder, zero-terminated.
    pub consumer: [u8; 32],
    /// Flags that hold for all lines.
    pub flags: u64,
    /// Number of attributes in use; none are.
    pub num_attrs: u32,
    /// Number of lines in use.
    pub num_lines: u32,
    /// Size of the event buffer, zero for the kernel's choice.
    pub event_buffer_size: u32,
    /// Descriptor of the granted lines, filled in by the kernel.
    pub fd: i32,
}

impl LineRequest {
    /// Asks for rising edges on one input line.
    pub fn rising_edges(line: u32) -> (r: LineRequest)
        ensures
            r.offsets@ == Seq::new(64, |i: int| 0u32).update(0, line),
            r.consumer@ == Seq::new(
                32,
                |i: int|
                    if i < consumer_label().len() {
                        consumer_label()[i] as u8
                    } else {
                        0u8
                    },
            ),
            r.flags == GPIO_V2_LINE_FLAG_INPUT | GPIO_V2_LINE_FLAG_EDGE_RISING,
            r.num_attrs == 0,
            r.num_lines == 1,
            r.event_buffer_size == 0,
            r.fd == 0,
    {
        let mut offsets: [u32; 64] = [0u32; 64];
        offsets[0] = line;
        proof {
            reveal_strlit("optical_detector");
        }
        let label: &str = "optical_detector";
        let mut consumer: [u8; 32] = [0u8; 32];
        for i in 0..16usize
            invariant
                label@ == consumer_label(),
                label@.len() == 16,
                label.is_ascii(),
                forall|j: int|
                    0 <= j < 32 ==> consumer@[j] == (if j < i {
                        label@[j] as u8
                    } else {
                        0u8
                    }),
        {
            consumer[i] = label.get_ascii(i);
        }
        LineRequest {
            offsets,
            consumer,
            flags: GPIO_V2_LINE_FLAG_INPUT | GPIO_V2_LINE_FLAG_EDGE_RISING,
            num_attrs: 0,
            num_lines: 1,
            event_buffer_size: 0,
            fd: 0,
        }
    }
}

/// Path of a GPIO chip's character device.
pub fn chip_path(chip: &str) -> (r: String)
    ensures
        r@ == "/dev/"@ + chip@,
{
    let mut path: String = "/dev/".to_string();
    path.append(chip);
    path
}

/// The value of a 64-bit word read as a signed number.
pub open spec fn as_signed(word: u64) -> int {
    if word < 0x8000_0000_0000_0000 {
        word as int
    } else {
        word - 0x1_0000_0000_0000_0000
    }
}

fn signed_word(word: u64) -> (r: i64)
    ensures
        r == as_signed(word),
{
    proof {
        assert(word < 0x8000_0000_0000_0000u64 ==> (word as i64) == word) by (bit_vector);
        assert(word >= 0x8000_0000_0000_0000u64 ==> (word as i64) == word
            - 0x1_0000_0000_0000_0000) by (bit_vector);
    }
    word as i64
}

/// What the listener does next.
#[derive(Clone, Copy, Debug, PartialEq, Eq, Structural)]
pub enum ListenerStep {
    /// Open the chip's device.
    OpenChip,
    /// Ask for the line.
    RequestLine,
    /// Read an event.
    ReadEvent,
    /// Pass on the time of an event, in nanoseconds of the monotonic clock.
    Forward(i64),
    /// Leave the thread.
    Exit,
}

/// How the work of a step ended.
#[derive(Clone, Copy, Debug, PartialEq, Eq, Structural)]
pub enum ListenerReply {
    /// Whether the chip was opened.
    Opened(bool),
    /// Result of the request, and the descriptor that it left.
    Requested { ret: i32, fd: i32 },
    /// Number of bytes read, negative on failure, and the time of the event.
    Read { n: isize, timestamp_ns: u64 },
    /// The time was passed on, or nobody takes it any more.
    Forwarded,
}

impl ListenerStep {
    /// Whether `reply` is one to this step.
    pub open spec fn takes(self, reply: ListenerReply) -> bool {
        match self {
            ListenerStep::OpenChip => reply is Opened,
            ListenerStep::RequestLine => reply is Requested,
            ListenerStep::ReadEvent => reply is Read,
            ListenerStep::Forward(_) => reply is Forwarded,
            ListenerStep::Exit => false,
        }
    }

    /// The step that follows a reply: a chip that cannot be opened or a line
    /// that is not granted ends the listener, a whole event is passed on, and
    /// anything else that was read is dropped.
    pub open spec fn after(reply: ListenerReply) -> ListenerStep {
        match reply {
            ListenerReply::Opened(opened) => if opened {
                ListenerStep::RequestLine
            } else {
                ListenerStep::Exit
            },
            ListenerReply::Requested { ret, fd } => if ret >= 0 && fd >= 0 {
                ListenerStep::ReadEvent
            } else {
                ListenerStep::Exit
            },
            ListenerReply::Read { n, timestamp_ns } => if n == LINE_EVENT_SIZE {
                ListenerStep::Forward(as_signed(timestamp_ns) as i64)
            } else {
                ListenerStep::ReadEvent
            },
            ListenerReply::Forwarded => ListenerStep::ReadEvent,
        }
    }

    /// The step that follows this one.
    pub fn next(self, reply: ListenerReply) -> (r: ListenerStep)
        requires
            self.takes(reply),
        ensures
            r == ListenerStep::after(reply),
            reply == ListenerReply::Opened(true) ==> r is RequestLine,
            reply == ListenerReply::Opened(false) ==> r is Exit,
            reply matches ListenerReply::Requested { ret, fd } ==> (ret >= 0 && fd >= 0 ==> r is ReadEvent),
            reply matches ListenerReply::Requested { ret, fd } ==> (ret < 0 || fd < 0 ==> r is Exit),
            reply matches ListenerReply::Read { n, timestamp_ns } ==> (n == 48 ==> r is Forward),
            reply matches ListenerReply::Read { n, timestamp_ns } ==> (n != 48 ==> r is ReadEvent),
            reply is Forwarded ==> r is ReadEvent,
            r matches ListenerStep::Forward(ns) ==> reply matches ListenerReply::Read {
                n,
                timestamp_ns,
            } && ns == as_signed(timestamp_ns),
    {
        match reply {
            ListenerReply::Opened(opened) => if opened {
                ListenerStep::RequestLine
            } else {
                ListenerStep::Exit
            },
            ListenerReply::Requested { ret, fd } => if ret < 0 || fd < 0 {
                ListenerStep::Exit
            } else {
                ListenerStep::ReadEvent
            },
            ListenerReply::Read { n, timestamp_ns } => if n == LINE_EVENT_SIZE as isize {
                ListenerStep::Forward(signed_word(timestamp_ns))
            } else {
                ListenerStep::ReadEvent
            },
            ListenerReply::Forwarded => ListenerStep::ReadEvent,
        }
    }
}

/// The step that the listener has reached after these replies.
pub open spec fn reached(replies: Seq<ListenerReply>) -> ListenerStep {
    if replies.len() == 0 {
        ListenerStep::OpenChip
    } else {
        ListenerStep::after(replies.last())
    }
}

/// Whether the listener can receive these replies in this order: each is one
/// to the step reached by those before it.
pub open spec fn is_run(replies: Seq<ListenerReply>) -> bool {
    forall|i: int|
        0 <= i < replies.len() ==> reached(#[trigger] replies.take(i)).takes(replies[i])
}

/// Whether the reply grants the line.
pub open spec fn is_grant(reply: ListenerReply) -> bool {
    reply matches ListenerReply::Requested { ret, fd } && ret >= 0 && fd >= 0
}

/// The chip was opened first, and the line granted next.
pub open spec fn was_granted(replies: Seq<ListenerReply>) -> bool {
    &&& replies.len() >= 2
    &&& replies[0] == ListenerReply::Opened(true)
    &&& is_grant(replies[1])
}

proof fn lemma_run_prefix(replies: Seq<ListenerReply>)
    requires
        is_run(replies),
        replies.len() > 0,
    ensures
        is_run(replies.drop_last()),
        reached(replies.drop_last()).takes(replies.last()),
{
    let prefix = replies.drop_last();
    assert(prefix == replies.take(replies.len() - 1));
    assert forall|i: int| 0 <= i < prefix.len() implies reached(#[trigger] prefix.take(i)).takes(
        prefix[i],
    ) by {
        assert(prefix.take(i) == replies.take(i));
        assert(prefix[i] == replies[i]);
    }
}

/// Events are read and passed on exactly while the line is granted: never
/// before, and, once it is granted, for good.
pub proof fn law_listens_while_granted(replies: Seq<ListenerReply>)
    requires
        is_run(replies),
    ensures
        was_granted(replies) <==> reached(replies) is ReadEvent || reached(replies) is Forward,
    decreases replies.len(),
{
    if replies.len() > 0 {
        lemma_run_prefix(replies);
        law_listens_while_granted(replies.drop_last());
        if replies.len() == 2 {
            lemma_run_prefix(replies.drop_last());
        }
    }
}

/// A whole event is passed on before anything else is read, with the time that
/// it bears; anything else that was read is followed by the next read.
pub proof fn law_whole_events_are_passed_on(replies: Seq<ListenerReply>, i: int)
    requires
        is_run(replies),
        0 <= i < replies.len(),
        replies[i] is Read,
    ensures
        replies[i]->n == LINE_EVENT_SIZE ==> {
            &&& reached(replies.take(i + 1)) matches ListenerStep::Forward(ns)
            &&& ns == as_signed(replies[i]->timestamp_ns)
            &&& i + 1 < replies.len() ==> replies[i + 1] is Forwarded
        },
        replies[i]->n != LINE_EVENT_SIZE ==> {
            &&& reached(replies.take(i + 1)) is ReadEvent
            &&& i + 1 < replies.len() ==> replies[i + 1] is Read
        },
{
    assert(replies.take(i + 1).last() == replies[i]);
    if i + 1 < replies.len() {
        assert(reached(replies.take(i + 1)).takes(replies[i + 1]));
    }
}

/// A word read as signed keeps its value where it can, is 2^64 less otherwise,
/// and always fits.
pub proof fn law_signed_words(word: u64)
    ensures
        -9_223_372_036_854_775_808 <= as_signed(word) <= 9_223_372_036_854_775_807,
        as_signed(word) == word || as_signed(word) == word - 18_446_744_073_709_551_616,
        as_signed(word) >= 0 <==> word <= 9_223_372_036_854_775_807,
{
}

/// The event that is passed on bears the very time that was read: of two whole
/// events, the later one is passed on with the later time, by as much.
pub proof fn law_event_times_keep_their_distance(a: u64, b: u64)
    requires
        a <= 9_223_372_036_854_775_807,
        b <= 9_223_372_036_854_775_807,
    ensures
        ({
            let first = ListenerStep::after(ListenerReply::Read { n: 48, timestamp_ns: a });
            let second = ListenerStep::after(ListenerReply::Read { n: 48, timestamp_ns: b });
            &&& first is Forward
            &&& second is Forward
            &&& first->0 == a
            &&& second->0 - first->0 == b - a
        }),
{
}

/// Each step is reached by its replies alone.
pub proof fn law_steps_are_reached_by_their_replies(replies: Seq<ListenerReply>)
    requires
        replies.len() > 0,
    ensures
        reached(replies) is RequestLine <==> replies.last() == ListenerReply::Opened(true),
        reached(replies) is Exit <==> replies.last() == ListenerReply::Opened(false) || (
        replies.last() matches ListenerReply::Requested { ret, fd } && (ret < 0 || fd < 0)),
        reached(replies) is Forward <==> (replies.last() matches ListenerReply::Read {
            n,
            timestamp_ns,
        } && n == 48),
        reached(replies) is ReadEvent <==> (replies.last() matches ListenerReply::Read {
            n,
            timestamp_ns,
        } && n != 48) || replies.last() is Forwarded || (
        replies.last() matches ListenerReply::Requested { ret, fd } && ret >= 0 && fd >= 0),
        reached(replies) !is OpenChip,
{
}

/// Every step but the last takes the replies of one kind, each kind of reply is
/// taken by one kind of step, and the last step takes none.
pub proof fn law_each_step_has_its_reply(step: ListenerStep, reply: ListenerReply)
    ensures
        step is OpenChip ==> (step.takes(reply) <==> reply is Opened),
        step is RequestLine ==> (step.takes(reply) <==> reply is Requested),
        step is ReadEvent ==> (step.takes(reply) <==> reply is Read),
        step is Forward ==> (step.takes(reply) <==> reply is Forwarded),
        step is Exit ==> !step.takes(reply),
{
}

/// The line is held under the program's name.
pub proof fn law_consumer_label()
    ensures
        consumer_label() == "optical_detector"@,
{
}

} // verus!
