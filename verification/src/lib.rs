//! Verified core of a CSI colour camera pipeline: what the capture and SYNC
//! threads do, colour conversion, time stamps, and the account of the frames.

pub mod arith;
pub mod capture;
pub mod csi_color;
pub mod frame_channel;
pub mod frame_log;
pub mod gpio_sync;
pub mod nv12;
pub mod save_slot;
pub mod timestamp;

use timestamp::Timestamp;
use vstd::prelude::*;

verus! {

/// A source of frames.
pub trait CameraHw {
    /// What a frame is made of.
    type Frame;

    /// The next frame and the instant of its capture; `None` at the end.
    fn recv_frame(&mut self) -> Option<(Timestamp, Self::Frame)>;
}

} // verus!
