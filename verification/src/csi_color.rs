//! The camera as its user sees it.

use crate::capture::CaptureSettings;
use crate::frame_channel::FrameChannel;
use crate::timestamp::Timestamp;
use crate::CameraHw;
use std::sync::mpsc::{Receiver, RecvError};
use vstd::prelude::*;

verus! {

/// Declares `std::sync::mpsc::Receiver`, the receiving end of a channel.
#[verifier::external_type_specification]
#[verifier::external_body]
#[verifier::reject_recursive_types(T)]
pub struct ExReceiver<T>(Receiver<T>);

/// Declares `std::sync::mpsc::RecvError`: the channel is empty and its sending
/// end is gone.
#[verifier::external_type_specification]
#[verifier::external_body]
pub struct ExRecvError(RecvError);

/// `Receiver::recv` waits for what the sending end does. Nothing can be stated
/// of what it returns.
pub assume_specification<T>[ Receiver::<T>::recv ](rx: &Receiver<T>) -> Result<T, RecvError>
;

/// A running CSI colour camera: the end at which its frames come out.
pub struct CsiColorCamera {
    frames: FrameChannel,
    width: u32,
    height: u32,
}

/// Whether `received` is what a call of `recv` on the channel brought.
pub open spec fn was_received(
    frame_rx: Receiver<(Timestamp, Vec<u8>)>,
    received: Result<(Timestamp, Vec<u8>), RecvError>,
) -> bool {
    call_ensures(Receiver::<(Timestamp, Vec<u8>)>::recv, (&frame_rx,), received)
}

/// The frame that a receive brought, if it brought one.
pub open spec fn frame_of(received: Result<(Timestamp, Vec<u8>), RecvError>) -> Option<
    (Timestamp, Vec<u8>),
> {
    match received {
        Ok(frame) => Some(frame),
        Err(_) => None,
    }
}

/// The frame that a receive brought. A channel whose sending end is gone
/// brings none.
pub fn received_frame(received: Result<(Timestamp, Vec<u8>), RecvError>) -> (r: Option<
    (Timestamp, Vec<u8>),
>)
    ensures
        r == frame_of(received),
        received matches Ok(frame) ==> r == Some(frame),
        received is Err ==> r is None,
{
    match received {
        Ok(frame) => Some(frame),
        Err(_) => None,
    }
}

impl CsiColorCamera {
    /// The channel that the frames come through.
    pub closed spec fn spec_frame_rx(self) -> Receiver<(Timestamp, Vec<u8>)> {
        self.frames.spec_frame_rx()
    }

    /// What the receives on that channel brought so far.
    pub closed spec fn spec_received(self) -> Seq<Result<(Timestamp, Vec<u8>), RecvError>> {
        self.frames.spec_received()
    }

    pub closed spec fn spec_width(self) -> u32 {
        self.width
    }

    pub closed spec fn spec_height(self) -> u32 {
        self.height
    }

    /// The camera whose capture thread, opened with `settings`, sends its
    /// frames to `frame_rx`.
    pub fn new(settings: &CaptureSettings, frame_rx: Receiver<(Timestamp, Vec<u8>)>) -> (r: Self)
        ensures
            r.spec_frame_rx() == frame_rx,
            r.spec_received() == Seq::<Result<(Timestamp, Vec<u8>), RecvError>>::empty(),
            r.spec_width() == settings.spec_width(),
            r.spec_height() == settings.spec_height(),
    {
        CsiColorCamera { frames: FrameChannel::new(frame_rx), width: settings.width(), height: settings.height() }
    }

    pub fn width(&self) -> (r: u32)
        ensures
            r == self.spec_width(),
    {
        self.width
    }

    pub fn height(&self) -> (r: u32)
        ensures
            r == self.spec_height(),
    {
        self.height
    }

    /// Waits for the next frame; `None` once the capture thread has left and
    /// its last frame was received. Which frame that is rests on that thread:
    /// the result is what a receive on the camera's channel brought.
    pub fn recv_frame(&mut self) -> (r: Option<(Timestamp, Vec<u8>)>)
        ensures
            exists|received: Result<(Timestamp, Vec<u8>), RecvError>|
                #[trigger] was_received(old(self).spec_frame_rx(), received) && r == frame_of(
                    received,
                ) && final(self).spec_received() == old(self).spec_received().push(received),
            final(self).spec_received().len() == old(self).spec_received().len() + 1,
            final(self).spec_received().drop_last() == old(self).spec_received(),
            final(self).spec_received().last() matches Ok(frame) ==> r == Some(frame),
            final(self).spec_received().last() is Err ==> r is None,
            final(self).spec_frame_rx() == old(self).spec_frame_rx(),
            final(self).spec_width() == old(self).spec_width(),
            final(self).spec_height() == old(self).spec_height(),
    {
        let received: Result<(Timestamp, Vec<u8>), RecvError> = self.frames.recv();
        proof {
            assert(was_received(old(self).spec_frame_rx(), received));
        }
        received_frame(received)
    }
}

impl CameraHw for CsiColorCamera {
    type Frame = Vec<u8>;

    fn recv_frame(&mut self) -> (r: Option<(Timestamp, Vec<u8>)>)
        ensures
            exists|received: Result<(Timestamp, Vec<u8>), RecvError>|
                #[trigger] was_received(old(self).spec_frame_rx(), received) && r == frame_of(
                    received,
                ) && final(self).spec_received() == old(self).spec_received().push(received),
            final(self).spec_received().len() == old(self).spec_received().len() + 1,
            final(self).spec_received().drop_last() == old(self).spec_received(),
            final(self).spec_received().last() matches Ok(frame) ==> r == Some(frame),
            final(self).spec_received().last() is Err ==> r is None,
            final(self).spec_frame_rx() == old(self).spec_frame_rx(),
            final(self).spec_width() == old(self).spec_width(),
            final(self).spec_height() == old(self).spec_height(),
    {
        let received: Result<(Timestamp, Vec<u8>), RecvError> = self.frames.recv();
        proof {
            assert(was_received(old(self).spec_frame_rx(), received));
        }
        received_frame(received)
    }
}

/// What counts as received came out of a call of `recv` on that very channel,
/// and a frame that came out is handed on whole.
pub proof fn law_frame_is_what_was_received(
    frame_rx: Receiver<(Timestamp, Vec<u8>)>,
    received: Result<(Timestamp, Vec<u8>), RecvError>,
)
    requires
        was_received(frame_rx, received),
    ensures
        call_ensures(Receiver::<(Timestamp, Vec<u8>)>::recv, (&frame_rx,), received),
        received matches Ok(frame) ==> frame_of(received) == Some(frame),
        received is Err ==> frame_of(received) is None,
{
}

/// Over calls of `recv_frame` one after another, each of which lengthens by one
/// what was received and returns the frame that it added, the call with number
/// `k` returns the frame of receive number `k`: none is skipped or repeated.
pub proof fn law_calls_hand_out_receives_in_order(
    cameras: Seq<CsiColorCamera>,
    frames: Seq<Option<(Timestamp, Vec<u8>)>>,
)
    requires
        cameras.len() == frames.len() + 1,
        cameras[0].spec_received().len() == 0,
        forall|i: int|
            0 <= i < frames.len() ==> {
                let last = cameras[i + 1].spec_received().last();
                &&& cameras[i + 1].spec_received().len() == cameras[i].spec_received().len() + 1
                &&& cameras[i + 1].spec_received().drop_last() == cameras[i].spec_received()
                &&& last matches Ok(frame) ==> frames[i] == Some(frame)
                &&& last is Err ==> #[trigger] frames[i] is None
            },
    ensures
        cameras.last().spec_received().len() == frames.len(),
        forall|k: int|
            0 <= k < frames.len() ==> (match cameras.last().spec_received()[k] {
                Ok(frame) => #[trigger] frames[k] == Some(frame),
                Err(_) => frames[k] is None,
            }),
    decreases frames.len(),
{
    let n = frames.len() as int;
    if n > 0 {
        let before = cameras.drop_last();
        let earlier = frames.drop_last();
        assert forall|i: int| 0 <= i < earlier.len() implies {
            let last = before[i + 1].spec_received().last();
            &&& before[i + 1].spec_received().len() == before[i].spec_received().len() + 1
            &&& before[i + 1].spec_received().drop_last() == before[i].spec_received()
            &&& last matches Ok(frame) ==> earlier[i] == Some(frame)
            &&& last is Err ==> #[trigger] earlier[i] is None
        } by {
            assert(earlier[i] == frames[i]);
        }
        law_calls_hand_out_receives_in_order(before, earlier);
        assert(frames[n - 1] is None || frames[n - 1] is Some);
        let received = cameras[n].spec_received();
        assert(received.drop_last() == cameras[n - 1].spec_received());
        assert forall|k: int| 0 <= k < n implies (match received[k] {
            Ok(frame) => #[trigger] frames[k] == Some(frame),
            Err(_) => frames[k] is None,
        }) by {
            if k < n - 1 {
                assert(earlier[k] == frames[k]);
                assert(received.drop_last()[k] == received[k]);
            }
        }
    }
}

} // verus!
