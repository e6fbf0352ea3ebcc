//! The two messages of the view-change protocol and their wire format.
//!
//! A frame is twelve bytes: a big-endian `u32` tag, then two big-endian `u32`
//! fields. Tag 2 is `ViewChange`, tag 3 is `VCProof`.

use crate::buffer::{buf_as_slice, buf_extend, buf_len, buf_limit, buf_view};
use bytes::BytesMut;
use vstd::prelude::*;

verus! {

/// The tag of a `ViewChange` frame.
pub const TAG_VIEW_CHANGE: u32 = 2;

/// The tag of a `VCProof` frame.
pub const TAG_VC_PROOF: u32 = 3;

/// The length of every frame, in bytes.
pub const FRAME_LEN: usize = 12;

/// What the nodes tell each other.
#[derive(Clone, Copy, Debug, PartialEq, Eq, Structural)]
pub enum Message {
    /// A message indicating that the given node is attempting to change to the given view.
    ViewChange {
        /// the id of the node attempting to change views
        server_id: u32,
        /// the id of the view the node is attempting to adopt
        attempted: u32,
    },
    /// A proof that the given view is installed by the specified node.
    VCProof {
        /// the id of the node sending the proof
        server_id: u32,
        /// the view installed by the node
        installed: u32,
    },
}

/// Why a frame could not be decoded.
#[derive(Clone, Copy, Debug, PartialEq, Eq, Structural)]
pub enum DecodeError {
    /// The frame's tag names no message.
    UnknownMessageType(u32),
}

/// Why a frame could not be written.
#[derive(Clone, Copy, Debug, PartialEq, Eq, Structural)]
pub enum EncodeError {
    /// The buffer is too long to take another frame.
    BufferFull,
}

/// The four bytes of `x`, most significant first.
pub open spec fn be_bytes(x: u32) -> Seq<u8> {
    seq![
        (x / 0x100_0000) as u8,
        (x / 0x1_0000 % 0x100) as u8,
        (x / 0x100 % 0x100) as u8,
        (x % 0x100) as u8,
    ]
}

/// The number whose big-endian bytes are `b[at], .., b[at + 3]`.
pub open spec fn be_u32(b: Seq<u8>, at: int) -> u32
    recommends
        0 <= at,
        at + 4 <= b.len(),
{
    (b[at] * 0x100_0000 + b[at + 1] * 0x1_0000 + b[at + 2] * 0x100 + b[at + 3]) as u32
}

impl Message {
    /// The tag that stands for this variant on the wire.
    pub open spec fn tag(self) -> u32 {
        match self {
            Message::ViewChange { .. } => TAG_VIEW_CHANGE,
            Message::VCProof { .. } => TAG_VC_PROOF,
        }
    }

    /// The node that sent the message.
    pub open spec fn sender(self) -> u32 {
        match self {
            Message::ViewChange { server_id, .. } => server_id,
            Message::VCProof { server_id, .. } => server_id,
        }
    }

    /// The view that the message speaks of.
    pub open spec fn view_number(self) -> u32 {
        match self {
            Message::ViewChange { attempted, .. } => attempted,
            Message::VCProof { installed, .. } => installed,
        }
    }

    /// The frame of the message: tag, sender, view.
    pub open spec fn frame(self) -> Seq<u8> {
        be_bytes(self.tag()) + be_bytes(self.sender()) + be_bytes(self.view_number())
    }

    /// Writes the message's frame into a fresh vector.
    pub fn to_frame(self) -> (out: Vec<u8>)
        ensures
            out@ == self.frame(),
            out@.len() == FRAME_LEN,
    {
        let mut out: Vec<u8> = Vec::new();
        match self {
            Message::ViewChange { server_id, attempted } => {
                push_u32_be(&mut out, TAG_VIEW_CHANGE);
                push_u32_be(&mut out, server_id);
                push_u32_be(&mut out, attempted);
            },
            Message::VCProof { server_id, installed } => {
                push_u32_be(&mut out, TAG_VC_PROOF);
                push_u32_be(&mut out, server_id);
                push_u32_be(&mut out, installed);
            },
        }
        out
    }
}

/// What the bytes at the front of a buffer decode to.
///
/// `Ok(None)` says that the frame is not complete yet. A tag is judged as soon
/// as its four bytes are there, before the fields have arrived. Bytes behind
/// the first frame are not looked at.
pub open spec fn parse_frame(b: Seq<u8>) -> Result<Option<Message>, DecodeError> {
    if b.len() < 4 {
        Ok(None)
    } else if be_u32(b, 0) == TAG_VIEW_CHANGE {
        if b.len() < FRAME_LEN {
            Ok(None)
        } else {
            Ok(Some(Message::ViewChange { server_id: be_u32(b, 4), attempted: be_u32(b, 8) }))
        }
    } else if be_u32(b, 0) == TAG_VC_PROOF {
        if b.len() < FRAME_LEN {
            Ok(None)
        } else {
            Ok(Some(Message::VCProof { server_id: be_u32(b, 4), installed: be_u32(b, 8) }))
        }
    } else {
        Err(DecodeError::UnknownMessageType(be_u32(b, 0)))
    }
}

/// Appends the big-endian bytes of `x` to `out`.
fn push_u32_be(out: &mut Vec<u8>, x: u32)
    ensures
        final(out)@ == old(out)@ + be_bytes(x),
{
    out.push((x / 0x100_0000) as u8);
    out.push((x / 0x1_0000 % 0x100) as u8);
    out.push((x / 0x100 % 0x100) as u8);
    out.push((x % 0x100) as u8);
}

/// Reads the big-endian `u32` that starts at `at`.
fn read_u32_be(b: &[u8], at: usize) -> (x: u32)
    requires
        at + 4 <= b@.len(),
    ensures
        x == be_u32(b@, at as int),
{
    let b0: u32 = b[at] as u32;
    let b1: u32 = b[at + 1] as u32;
    let b2: u32 = b[at + 2] as u32;
    let b3: u32 = b[at + 3] as u32;
    b0 * 0x100_0000 + b1 * 0x1_0000 + b2 * 0x100 + b3
}

/// Decodes the frame at the front of `b`.
pub fn decode_frame(b: &[u8]) -> (r: Result<Option<Message>, DecodeError>)
    ensures
        r == parse_frame(b@),
{
    if b.len() < 4 {
        return Ok(None);
    }
    let tag: u32 = read_u32_be(b, 0);
    if tag == TAG_VIEW_CHANGE {
        if b.len() - 4 < 8 {
            return Ok(None);
        }
        Ok(Some(Message::ViewChange { server_id: read_u32_be(b, 4), attempted: read_u32_be(b, 8) }))
    } else if tag == TAG_VC_PROOF {
        if b.len() - 4 < 8 {
            return Ok(None);
        }
        Ok(Some(Message::VCProof { server_id: read_u32_be(b, 4), installed: read_u32_be(b, 8) }))
    } else {
        Err(DecodeError::UnknownMessageType(tag))
    }
}

/// The codec between messages and byte buffers.
pub struct MessageCodec;

impl MessageCodec {
    /// Decodes the frame at the front of `src`, and leaves `src` as it was.
    pub fn decode(&mut self, src: &mut BytesMut) -> (r: Result<Option<Message>, DecodeError>)
        ensures
            r == parse_frame(buf_view(*old(src))),
            *final(src) == *old(src),
    {
        decode_frame(buf_as_slice(src))
    }

    /// Appends the frame of `msg` to `dst`, which must be short enough to
    /// grow by a frame.
    pub fn encode(&mut self, msg: Message, dst: &mut BytesMut)
        requires
            buf_view(*old(dst)).len() + FRAME_LEN <= buf_limit(),
        ensures
            buf_view(*final(dst)) == buf_view(*old(dst)) + msg.frame(),
    {
        let frame = msg.to_frame();
        buf_extend(dst, frame.as_slice());
    }

    /// Appends the frame of `msg` to `dst`, or leaves `dst` as it is where it
    /// is too long to grow by a frame.
    pub fn try_encode(&mut self, msg: Message, dst: &mut BytesMut) -> (r: Result<(), EncodeError>)
        ensures
            buf_view(*old(dst)).len() + FRAME_LEN <= buf_limit() ==> r == Ok::<(), EncodeError>(())
                && buf_view(*final(dst)) == buf_view(*old(dst)) + msg.frame(),
            buf_view(*old(dst)).len() + FRAME_LEN > buf_limit() ==> r == Err::<(), EncodeError>(
                EncodeError::BufferFull,
            ) && *final(dst) == *old(dst),
    {
        if buf_len(dst) <= (isize::MAX as usize) / 4 - FRAME_LEN {
            self.encode(msg, dst);
            Ok(())
        } else {
            Err(EncodeError::BufferFull)
        }
    }
}

/// A number is the value of its own big-endian bytes, wherever they lie.
pub proof fn lemma_be_round_trip(x: u32, pre: Seq<u8>, post: Seq<u8>)
    ensures
        be_u32(pre + be_bytes(x) + post, pre.len() as int) == x,
{
    let b = pre + be_bytes(x) + post;
    let at = pre.len() as int;
    assert(b[at] == be_bytes(x)[0]);
    assert(b[at + 1] == be_bytes(x)[1]);
    assert(b[at + 2] == be_bytes(x)[2]);
    assert(b[at + 3] == be_bytes(x)[3]);
}

/// Every message is what its frame decodes to, whatever follows the frame.
pub proof fn lemma_frame_round_trip(m: Message, rest: Seq<u8>)
    ensures
        m.frame().len() == FRAME_LEN,
        parse_frame(m.frame() + rest) == Ok::<Option<Message>, DecodeError>(Some(m)),
{
    let b = m.frame() + rest;
    let e = Seq::<u8>::empty();
    assert(b =~= e + be_bytes(m.tag()) + (be_bytes(m.sender()) + be_bytes(m.view_number()) + rest));
    lemma_be_round_trip(m.tag(), e, be_bytes(m.sender()) + be_bytes(m.view_number()) + rest);
    assert(b =~= be_bytes(m.tag()) + be_bytes(m.sender()) + (be_bytes(m.view_number()) + rest));
    lemma_be_round_trip(m.sender(), be_bytes(m.tag()), be_bytes(m.view_number()) + rest);
    assert(b =~= (be_bytes(m.tag()) + be_bytes(m.sender())) + be_bytes(m.view_number()) + rest);
    lemma_be_round_trip(m.view_number(), be_bytes(m.tag()) + be_bytes(m.sender()), rest);
}

} // verus!
