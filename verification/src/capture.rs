//! What the capture thread does: the order of its work, and what it makes of
//! an acquired frame.

use crate::nv12::{is_convertible, nv12_to_rgb, rgb_image};
use crate::timestamp::{is_clock_reading, is_instant, mono_ns_to_utc, wall_clock_of, MonoTime, Timestamp};
use vstd::prelude::*;

verus! {

/// Size in bytes of an NV12 frame: one and a half bytes per pixel.
pub open spec fn nv12_bytes(width: int, height: int) -> int {
    width * height * 3 / 2
}

/// The mode in which the sensor is opened.
#[derive(Clone, Copy, Debug)]
pub struct CaptureSettings {
    sensor_id: u32,
    width: u32,
    height: u32,
    fps: u32,
}

impl CaptureSettings {
    #[verifier::type_invariant]
    spec fn well_formed(self) -> bool {
        self.width * self.height * 3 <= u32::MAX
    }

    pub closed spec fn spec_sensor_id(self) -> u32 {
        self.sensor_id
    }

    pub closed spec fn spec_width(self) -> u32 {
        self.width
    }

    pub closed spec fn spec_height(self) -> u32 {
        self.height
    }

    pub closed spec fn spec_fps(self) -> u32 {
        self.fps
    }

    /// The settings, or `None` where the size of a frame overflows.
    pub fn new(sensor_id: u32, width: u32, height: u32, fps: u32) -> (r: Option<CaptureSettings>)
        ensures
            r is Some <==> width * height * 3 <= u32::MAX,
            r matches Some(s) ==> {
                &&& s.spec_sensor_id() == sensor_id
                &&& s.spec_width() == width
                &&& s.spec_height() == height
                &&& s.spec_fps() == fps
            },
    {
        let pixels: u32 = width.checked_mul(height)?;
        let _: u32 = pixels.checked_mul(3)?;
        Some(CaptureSettings { sensor_id, width, height, fps })
    }

    pub fn sensor_id(&self) -> (r: u32)
        ensures
            r == self.spec_sensor_id(),
    {
        self.sensor_id
    }

    pub fn width(&self) -> (r: u32)
        ensures
            r == self.spec_width(),
    {
        self.width
    }

    pub fn height(&self) -> (r: u32)
        ensures
            r == self.spec_height(),
    {
        self.height
    }

    pub fn fps(&self) -> (r: u32)
        ensures
            r == self.spec_fps(),
    {
        self.fps
    }

    /// Size in bytes of the buffer that receives a frame.
    pub fn nv12_size(&self) -> (r: usize)
        ensures
            r == nv12_bytes(self.spec_width() as int, self.spec_height() as int),
            r <= u32::MAX / 2,
            2 * r <= 3 * (self.spec_width() * self.spec_height()) < 2 * r + 2,
    {
        proof {
            use_type_invariant(self);
            assert(0 <= self.width * self.height) by (nonlinear_arith)
                requires
                    0 <= self.width,
                    0 <= self.height,
            ;
        }
        (self.width * self.height * 3 / 2) as usize
    }

    /// The RGB form of the first `written` bytes of `nv12_buf`.
    pub fn rgb(&self, nv12_buf: &[u8], written: usize) -> (r: Vec<u8>)
        requires
            written <= nv12_buf@.len(),
            is_convertible(written as int, self.spec_width() as int, self.spec_height() as int),
        ensures
            r@ == rgb_image(
                nv12_buf@.take(written as int),
                self.spec_width() as int,
                self.spec_height() as int,
            ),
    {
        let nv12: &[u8] = vstd::slice::slice_subrange(nv12_buf, 0, written);
        nv12_to_rgb(nv12, self.width as usize, self.height as usize)
    }

    /// The frame to hand on: the RGB form of the first `written` bytes of
    /// `nv12_buf`, acquired at `mono_ns`, with its wall-clock instant. The wall
    /// clock is read here, and `mono_now` is the monotonic clock's reading.
    ///
    /// `None` where the instant cannot be computed.
    pub fn frame(
        &self,
        nv12_buf: &[u8],
        written: usize,
        mono_ns: i64,
        mono_now: &MonoTime,
    ) -> (r: Option<(Timestamp, Vec<u8>)>)
        requires
            written <= nv12_buf@.len(),
            is_convertible(written as int, self.spec_width() as int, self.spec_height() as int),
        ensures
            exists|now: int|
                0 <= now && is_instant(now) && #[trigger] is_clock_reading(now)
                    && instant_of_frame(r) == wall_clock_of(
                    mono_ns,
                    *mono_now,
                    now,
                ),
            r matches Some(frame) ==> exists|now: int|
                #[trigger] is_clock_reading(now) && frame.0@ == now - (mono_now.tv_sec
                    * 1_000_000_000 + mono_now.tv_nsec - mono_ns),
            mono_now.age_of(mono_ns) is None ==> r is None,
            mono_now.age_of(mono_ns) matches Some(age) ==> age >= 0 ==> r is Some,
            r matches Some(frame) ==> frame.1@ == rgb_image(
                nv12_buf@.take(written as int),
                self.spec_width() as int,
                self.spec_height() as int,
            ),
    {
        match mono_ns_to_utc(mono_ns, mono_now) {
            Some(ts) => Some((ts, self.rgb(nv12_buf, written))),
            None => None,
        }
    }
}

/// The instant of an optional frame.
pub open spec fn instant_of_frame(frame: Option<(Timestamp, Vec<u8>)>) -> Option<int> {
    match frame {
        Some((ts, _)) => Some(ts@),
        None => None,
    }
}

/// What the capture thread does next.
#[derive(Clone, Copy, Debug, PartialEq, Eq, Structural)]
pub enum CaptureStep {
    /// Open the sensor.
    Create,
    /// See whether a stop was requested.
    PollStop,
    /// Wait for a frame.
    Acquire,
    /// Convert the frame of this many bytes and hand it on.
    Deliver(usize),
    /// Close the sensor.
    Destroy,
    /// Leave the thread.
    Exit,
}

/// How the work of a step ended.
#[derive(Clone, Copy, Debug, PartialEq, Eq, Structural)]
pub enum CaptureReply {
    /// Whether the sensor was opened.
    Created(bool),
    /// Whether a stop was requested.
    StopPolled(bool),
    /// Bytes written, negative on failure.
    Acquired(i32),
    /// The frame was handed on, or dropped because the last one still waits.
    Delivered,
    /// The sensor was closed.
    Destroyed,
}

impl CaptureStep {
    /// Whether `reply` is one to this step.
    pub open spec fn takes(self, reply: CaptureReply) -> bool {
        match self {
            CaptureStep::Create => reply is Created,
            CaptureStep::PollStop => reply is StopPolled,
            CaptureStep::Acquire => reply is Acquired,
            CaptureStep::Deliver(_) => reply is Delivered,
            CaptureStep::Destroy => reply is Destroyed,
            CaptureStep::Exit => false,
        }
    }

    /// The step that follows a reply.
    pub open spec fn after(reply: CaptureReply) -> CaptureStep {
        match reply {
            CaptureReply::Created(opened) => if opened {
                CaptureStep::PollStop
            } else {
                CaptureStep::Exit
            },
            CaptureReply::StopPolled(requested) => if requested {
                CaptureStep::Destroy
            } else {
                CaptureStep::Acquire
            },
            CaptureReply::Acquired(written) => if written < 0 {
                CaptureStep::Destroy
            } else {
                CaptureStep::Deliver(written as usize)
            },
            CaptureReply::Delivered => CaptureStep::PollStop,
            CaptureReply::Destroyed => CaptureStep::Exit,
        }
    }

    /// The step that follows this one.
    pub fn next(self, reply: CaptureReply) -> (r: CaptureStep)
        requires
            self.takes(reply),
        ensures
            r == CaptureStep::after(reply),
            reply == CaptureReply::Created(true) ==> r is PollStop,
            reply == CaptureReply::Created(false) ==> r is Exit,
            reply == CaptureReply::StopPolled(true) ==> r is Destroy,
            reply == CaptureReply::StopPolled(false) ==> r is Acquire,
            reply matches CaptureReply::Acquired(written) ==> written < 0 ==> r is Destroy,
            reply matches CaptureReply::Acquired(written) ==> written >= 0 ==> (
            r matches CaptureStep::Deliver(bytes) && bytes == written),
            reply is Delivered ==> r is PollStop,
            reply is Destroyed ==> r is Exit,
    {
        match reply {
            CaptureReply::Created(true) => CaptureStep::PollStop,
            CaptureReply::Created(false) => CaptureStep::Exit,
            CaptureReply::StopPolled(true) => CaptureStep::Destroy,
            CaptureReply::StopPolled(false) => CaptureStep::Acquire,
            CaptureReply::Acquired(written) => if written < 0 {
                CaptureStep::Destroy
            } else {
                CaptureStep::Deliver(written as usize)
            },
            CaptureReply::Delivered => CaptureStep::PollStop,
            CaptureReply::Destroyed => CaptureStep::Exit,
        }
    }
}

/// The step that the thread has reached after these replies.
pub open spec fn reached(replies: Seq<CaptureReply>) -> CaptureStep {
    if replies.len() == 0 {
        CaptureStep::Create
    } else {
        CaptureStep::after(replies.last())
    }
}

/// Whether the thread can receive these replies in this order: each is one to
/// the step reached by those before it.
pub open spec fn is_run(replies: Seq<CaptureReply>) -> bool {
    forall|i: int|
        0 <= i < replies.len() ==> reached(#[trigger] replies.take(i)).takes(replies[i])
}

/// How often the sensor was closed.
pub open spec fn times_closed(replies: Seq<CaptureReply>) -> nat {
    replies.filter(|r: CaptureReply| r is Destroyed).len()
}

/// Whether the sensor was opened.
pub open spec fn was_opened(replies: Seq<CaptureReply>) -> bool {
    replies.len() > 0 && replies[0] == CaptureReply::Created(true)
}

proof fn lemma_run_prefix(replies: Seq<CaptureReply>)
    requires
        is_run(replies),
        replies.len() > 0,
    ensures
        is_run(replies.drop_last()),
        reached(replies.drop_last()).takes(replies.last()),
{
    let prefix = replies.drop_last();
    assert(prefix == replies.take(replies.len() - 1));
    assert forall|i: int| 0 <= i < prefix.len() implies reached(#[trigger] prefix.take(i)).takes(
        prefix[i],
    ) by {
        assert(prefix.take(i) == replies.take(i));
        assert(prefix[i] == replies[i]);
    }
}

/// While the sensor is in use it has not been closed, and when the thread
/// leaves it has been closed exactly once if it was opened, and not at all
/// otherwise.
pub proof fn law_sensor_closed_once(replies: Seq<CaptureReply>)
    requires
        is_run(replies),
    ensures
        reached(replies) is Exit ==> times_closed(replies) == (if was_opened(replies) {
            1nat
        } else {
            0nat
        }),
        reached(replies) !is Exit ==> times_closed(replies) == 0,
        reached(replies) !is Exit && reached(replies) !is Create ==> was_opened(replies),
    decreases replies.len(),
{
    reveal(Seq::filter);
    if replies.len() > 0 {
        lemma_run_prefix(replies);
        law_sensor_closed_once(replies.drop_last());
    }
}

/// Once a stop was seen, or an acquisition failed, nothing is acquired or
/// delivered any more: the sensor is closed and the thread leaves.
pub proof fn law_stop_is_final(replies: Seq<CaptureReply>, i: int)
    requires
        is_run(replies),
        0 <= i < replies.len(),
        replies[i] == CaptureReply::StopPolled(true) || (replies[i] matches CaptureReply::Acquired(
            written,
        ) && written < 0),
    ensures
        reached(replies) is Destroy || reached(replies) is Exit,
    decreases replies.len(),
{
    if i < replies.len() - 1 {
        lemma_run_prefix(replies);
        law_stop_is_final(replies.drop_last(), i);
    }
}

/// Every acquisition directly follows a look for a stop request that found
/// none.
pub proof fn law_stop_is_polled_before_each_frame(replies: Seq<CaptureReply>)
    ensures
        reached(replies) is Acquire <==> replies.len() > 0 && replies.last()
            == CaptureReply::StopPolled(false),
{
}

/// A full buffer holds all that the conversion reads exactly where both sides
/// of the frame are even (or one of them is zero).
pub proof fn law_full_buffer_converts(width: int, height: int)
    requires
        0 <= width,
        0 <= height,
        width * height * 3 <= isize::MAX,
    ensures
        is_convertible(nv12_bytes(width, height), width, height) <==> {
            ||| width == 0
            ||| height == 0
            ||| width % 2 == 0 && height % 2 == 0
        },
{
    if width == 0 || height == 0 {
        assert(width * height == 0) by (nonlinear_arith)
            requires
                width == 0 || height == 0,
        ;
    } else {
        let half = (height + 1) / 2;
        if height % 2 == 0 {
            assert(width * height == 2 * (half * width)) by (nonlinear_arith)
                requires
                    height == 2 * half,
            ;
        } else {
            assert(width * height == 2 * (half * width) - width) by (nonlinear_arith)
                requires
                    height == 2 * half - 1,
            ;
        }
    }
}

/// An acquisition of `written` bytes is followed by the delivery of exactly
/// those bytes, however many they are, and is never delivered if it failed.
pub proof fn law_acquired_bytes_are_delivered(replies: Seq<CaptureReply>, written: i32)
    requires
        replies.len() > 0,
        replies.last() == CaptureReply::Acquired(written),
    ensures
        written >= 0 <==> reached(replies) is Deliver,
        reached(replies) matches CaptureStep::Deliver(bytes) ==> bytes == written,
        written < 0 <==> reached(replies) is Destroy,
{
}

/// Two acquisitions of different sizes are never delivered alike.
pub proof fn law_deliveries_tell_sizes_apart(a: i32, b: i32)
    requires
        a >= 0,
        b >= 0,
    ensures
        CaptureStep::after(CaptureReply::Acquired(a)) == CaptureStep::after(
            CaptureReply::Acquired(b),
        ) <==> a == b,
{
}

/// Delivery is reached by an acquisition alone, polling by opening the sensor
/// or a delivery alone, closing by a stop or a failure alone, and the end by a
/// sensor that did not open or was closed alone.
pub proof fn law_steps_are_reached_by_their_replies(replies: Seq<CaptureReply>)
    requires
        replies.len() > 0,
    ensures
        reached(replies) is Deliver <==> (replies.last() matches CaptureReply::Acquired(n) && n
            >= 0),
        reached(replies) is PollStop <==> replies.last() == CaptureReply::Created(true)
            || replies.last() is Delivered,
        reached(replies) is Acquire <==> replies.last() == CaptureReply::StopPolled(false),
        reached(replies) is Destroy <==> replies.last() == CaptureReply::StopPolled(true) || (
        replies.last() matches CaptureReply::Acquired(n) && n < 0),
        reached(replies) is Exit <==> replies.last() == CaptureReply::Created(false)
            || replies.last() is Destroyed,
        reached(replies) !is Create,
{
}

/// Every step but the last takes the replies of one kind, each kind of reply is
/// taken by one kind of step, and the last step takes none.
pub proof fn law_each_step_has_its_reply(step: CaptureStep, reply: CaptureReply)
    ensures
        step is Create ==> (step.takes(reply) <==> reply is Created),
        step is PollStop ==> (step.takes(reply) <==> reply is StopPolled),
        step is Acquire ==> (step.takes(reply) <==> reply is Acquired),
        step is Deliver ==> (step.takes(reply) <==> reply is Delivered),
        step is Destroy ==> (step.takes(reply) <==> reply is Destroyed),
        step is Exit ==> !step.takes(reply),
{
}

/// The buffer holds three bytes for every two pixels, rounded down.
pub proof fn law_one_and_a_half_bytes_per_pixel(width: int, height: int)
    ensures
        2 * nv12_bytes(width, height) <= 3 * (width * height) < 2 * nv12_bytes(width, height) + 2,
{
}

/// The instant of a frame is the one it is stamped with.
pub proof fn law_instant_of_frame(ts: Timestamp, rgb: Vec<u8>)
    ensures
        instant_of_frame(Some((ts, rgb))) == Some(ts@),
        instant_of_frame(None) is None,
{
}

} // verus!
