//! The packet-acquisition boundary: an abstract, never-blocking source of
//! already-captured frames, with a scripted double for tests and a source
//! that is always dry.

use vstd::prelude::*;

verus! {

/// One captured unit of data: an opaque payload and the capture timestamp in
/// nanoseconds. The controller never inspects a frame; it only drains them.
pub struct RawFrame {
    pub data: Vec<u8>,
    pub timestamp: u64,
}

/// A source of already-captured frames.
///
/// `pending()` is the ghost count of frames available right now without
/// waiting. `next_packet` hands one out exactly when some are pending; it
/// must never block, so a slow or idle backend cannot starve input handling.
pub trait PacketSource {
    spec fn pending(&self) -> nat;

    fn next_packet(&mut self) -> (r: Option<RawFrame>)
        ensures
            r is Some <==> old(self).pending() > 0,
            r is Some ==> final(self).pending() == old(self).pending() - 1,
            r is None ==> final(self).pending() == old(self).pending(),
    ;
}

/// A packet source that never has a frame: the stand-in until real capture
/// is added.
pub struct NullPacketSource;

impl PacketSource for NullPacketSource {
    open spec fn pending(&self) -> nat {
        0
    }

    fn next_packet(&mut self) -> (r: Option<RawFrame>) {
        None
    }
}

/// A scripted packet source for tests: hands out its frames in arrival
/// order and then runs dry.
pub struct MockPacketSource {
    frames: Vec<RawFrame>,
}

impl MockPacketSource {
    /// A source with no frames at all.
    pub fn empty() -> (r: MockPacketSource)
        ensures
            r.pending() == 0,
    {
        MockPacketSource { frames: Vec::new() }
    }

    /// A source that will hand out exactly `frames.len()` frames.
    pub fn with_frames(frames: Vec<RawFrame>) -> (r: MockPacketSource)
        ensures
            r.pending() == frames@.len(),
    {
        MockPacketSource { frames }
    }
}

impl PacketSource for MockPacketSource {
    closed spec fn pending(&self) -> nat {
        self.frames@.len()
    }

    fn next_packet(&mut self) -> (r: Option<RawFrame>) {
        if self.frames.len() == 0 {
            None
        } else {
            Some(self.frames.remove(0))
        }
    }
}

} // verus!
