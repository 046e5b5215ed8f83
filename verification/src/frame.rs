//! The published frame: the pre-encoded draw commands of the sprite's
//! current appearance.
//!
//! The store follows publish-by-replacement: a writer builds a complete
//! new buffer off to the side and replaces the stored one whole; a
//! reader takes a snapshot and uses it to completion.  A snapshot is
//! always exactly one published buffer, never a mix of two.  Sharing the
//! store between one writer task and many reader tasks is the runtime's
//! concern; the contracts here are what each of them relies on.

use vstd::prelude::*;
use crate::protocol::Draw;

verus! {

/// Copies a byte buffer.
pub(crate) fn copy_bytes(src: &Vec<u8>) -> (v: Vec<u8>)
    ensures
        v@ == src@,
{
    let mut v: Vec<u8> = Vec::new();
    let mut i: usize = 0;
    while i < src.len()
        invariant
            i <= src@.len(),
            v@ == src@.take(i as int),
        decreases src@.len() - i,
    {
        v.push(src[i]);
        proof {
            assert(v@ =~= src@.take(i as int + 1));
        }
        i += 1;
    }
    proof {
        assert(src@.take(src@.len() as int) =~= src@);
    }
    v
}

/// Holder of the latest published frame.
pub struct FrameStore {
    frame: Vec<u8>,
}

impl View for FrameStore {
    type V = Seq<u8>;

    closed spec fn view(&self) -> Seq<u8> {
        self.frame@
    }
}

impl FrameStore {
    /// A store holding `frame` as the first published buffer.
    pub fn new(frame: Vec<u8>) -> (s: FrameStore)
        ensures
            s@ == frame@,
    {
        FrameStore { frame }
    }

    /// Replaces the stored frame with a complete new one.  The buffer is
    /// swapped whole: after the call the store holds exactly `frame`,
    /// with no remnant of the previous buffer.
    pub fn publish(&mut self, frame: Vec<u8>)
        ensures
            final(self)@ == frame@,
    {
        self.frame = frame;
    }

    /// A complete copy of the latest published frame: exactly the bytes
    /// of one `publish`, never an interleaving of two.
    pub fn snapshot(&self) -> (v: Vec<u8>)
        ensures
            v@ == self@,
    {
        copy_bytes(&self.frame)
    }
}

impl Draw for FrameStore {
    /// A frame store renders as the latest published frame.
    open spec fn spec_draw_bytes(&self) -> Seq<u8> {
        self@
    }

    fn draw(&self) -> (r: Vec<u8>)
        ensures
            r@ == self.spec_draw_bytes(),
    {
        self.snapshot()
    }
}

} // verus!
