//! Slot for the latest frame, drained by the thread that saves it.

use vstd::prelude::*;

verus! {

/// Holds at most one frame, the latest one put in. Its view is the bytes of
/// that frame.
pub struct SaveSlot {
    frame: Option<Vec<u8>>,
}

/// The bytes of an optional frame.
pub open spec fn bytes_of(frame: Option<Vec<u8>>) -> Option<Seq<u8>> {
    match frame {
        Some(bytes) => Some(bytes@),
        None => None,
    }
}

impl View for SaveSlot {
    type V = Option<Seq<u8>>;

    closed spec fn view(&self) -> Option<Seq<u8>> {
        bytes_of(self.frame)
    }
}

impl SaveSlot {
    /// An empty slot.
    pub fn new() -> (r: SaveSlot)
        ensures
            r@ == None::<Seq<u8>>,
    {
        SaveSlot { frame: None }
    }

    /// Puts a frame in. One that was not taken yet is dropped.
    pub fn put(&mut self, frame: Vec<u8>)
        ensures
            final(self)@ == Some(frame@),
    {
        self.frame = Some(frame);
    }

    /// Takes the frame out, if there is one, and leaves the slot empty.
    pub fn take(&mut self) -> (r: Option<Vec<u8>>)
        ensures
            bytes_of(r) == old(self)@,
            r is Some <==> old(self)@ is Some,
            r matches Some(frame) ==> frame@ == old(self)@->0,
            final(self)@ == None::<Seq<u8>>,
    {
        self.frame.take()
    }
}

/// The bytes of a frame are all of its bytes, in order.
pub proof fn law_bytes_of_a_frame(frame: Vec<u8>)
    ensures
        bytes_of(Some(frame)) == Some(frame@),
        bytes_of(None) is None,
{
}

} // verus!
