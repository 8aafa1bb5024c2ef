//! The receiving end of the channel that frames come through, with a record of
//! what came out of it.

use crate::csi_color::was_received;
use crate::timestamp::Timestamp;
use std::sync::mpsc::{Receiver, RecvError};
use vstd::prelude::*;

verus! {

/// A channel of frames. What the receives brought so far, in order, is part of
/// its state.
pub struct FrameChannel {
    frame_rx: Receiver<(Timestamp, Vec<u8>)>,
    received: Ghost<Seq<Result<(Timestamp, Vec<u8>), RecvError>>>,
}

impl FrameChannel {
    /// The receiving end.
    pub closed spec fn spec_frame_rx(self) -> Receiver<(Timestamp, Vec<u8>)> {
        self.frame_rx
    }

    /// What the receives brought so far.
    pub closed spec fn spec_received(self) -> Seq<Result<(Timestamp, Vec<u8>), RecvError>> {
        self.received@
    }

    /// A channel that nothing was received from yet.
    pub fn new(frame_rx: Receiver<(Timestamp, Vec<u8>)>) -> (r: FrameChannel)
        ensures
            r.spec_frame_rx() == frame_rx,
            r.spec_received() == Seq::<Result<(Timestamp, Vec<u8>), RecvError>>::empty(),
    {
        FrameChannel { frame_rx, received: Ghost(Seq::empty()) }
    }

    /// Receives once. The outcome is the last one on record.
    pub fn recv(&mut self) -> (r: Result<(Timestamp, Vec<u8>), RecvError>)
        ensures
            was_received(old(self).spec_frame_rx(), r),
            final(self).spec_frame_rx() == old(self).spec_frame_rx(),
            final(self).spec_received() == old(self).spec_received().push(r),
    {
        let received: Result<(Timestamp, Vec<u8>), RecvError> = self.frame_rx.recv();
        proof {
            assert(was_received(old(self).frame_rx, received));
        }
        self.received = Ghost(self.received@.push(received));
        received
    }
}

} // verus!
