//! Application-level messages.
//!
//! A message is an opaque payload classified as textual or binary. Transport
//! control frames (ping/pong/close) are not part of the application data
//! model: the transport shell filters them out before anything here sees a
//! message.

use vstd::prelude::*;

verus! {

/// Mathematical model of a frame: its classification and its payload bytes.
pub enum FrameModel {
    Text(Seq<u8>),
    Binary(Seq<u8>),
}

impl FrameModel {
    /// The payload bytes, regardless of classification.
    pub open spec fn data(self) -> Seq<u8> {
        match self {
            FrameModel::Text(d) => d,
            FrameModel::Binary(d) => d,
        }
    }
}

/// An application message: a textual or binary payload.
///
/// A textual frame's payload holds the encoded bytes of its text.
pub enum Frame {
    Text(Vec<u8>),
    Binary(Vec<u8>),
}

impl View for Frame {
    type V = FrameModel;

    open spec fn view(&self) -> FrameModel {
        match self {
            Frame::Text(d) => FrameModel::Text(d@),
            Frame::Binary(d) => FrameModel::Binary(d@),
        }
    }
}

impl Frame {
    /// Whether this frame is textual.
    pub fn is_text(&self) -> (r: bool)
        ensures
            r == (self@ matches FrameModel::Text(_)),
    {
        match self {
            Frame::Text(_) => true,
            Frame::Binary(_) => false,
        }
    }

    /// The payload bytes.
    pub fn payload(&self) -> (r: &Vec<u8>)
        ensures
            r@ == self@.data(),
    {
        match self {
            Frame::Text(d) => d,
            Frame::Binary(d) => d,
        }
    }
}

/// An exact copy of a byte vector.
pub fn copy_bytes(b: &Vec<u8>) -> (r: Vec<u8>)
    ensures
        r@ == b@,
{
    let mut r: Vec<u8> = Vec::new();
    let mut i: usize = 0;
    while i < b.len()
        invariant
            i <= b.len(),
            r@ == b@.subrange(0, i as int),
        decreases b.len() - i,
    {
        r.push(b[i]);
        i = i + 1;
        proof {
            assert(r@ =~= b@.subrange(0, i as int));
        }
    }
    proof {
        assert(b@.subrange(0, b@.len() as int) =~= b@);
    }
    r
}

/// An exact copy of a frame: same classification, same payload.
pub fn frame_dup(f: &Frame) -> (r: Frame)
    ensures
        r@ == f@,
{
    match f {
        Frame::Text(d) => Frame::Text(copy_bytes(d)),
        Frame::Binary(d) => Frame::Binary(copy_bytes(d)),
    }
}

} // verus!
