//! The frame and message model of the wire protocol.
//!
//! A [`Frame`] is the atomic transmission unit: a 16-bit flag mask plus a
//! content buffer. The first frame of a message additionally carries the
//! message type and correlation id. A [`Message`] is a non-empty ordered
//! sequence of frames sharing one correlation id and type.

use vstd::prelude::*;
use vstd::bytes::{
    spec_u16_from_le_bytes, spec_u16_to_le_bytes, spec_u32_from_le_bytes, spec_u32_to_le_bytes,
    spec_u64_from_le_bytes, spec_u64_to_le_bytes, u16_from_le_bytes, u16_to_le_bytes,
    u32_from_le_bytes, u32_to_le_bytes, u64_from_le_bytes, u64_to_le_bytes,
};
use vstd::slice::{slice_subrange, slice_to_vec};
use crate::messaging::error::DecodeError;

verus! {

pub const DEFAULT_FLAGS: u16 = 0;

/// First frame of a network fragment.
pub const BEGIN_FRAGMENT_FLAG: u16 = 0x8000;

/// Last frame of a network fragment.
pub const END_FRAGMENT_FLAG: u16 = 0x4000;

/// Last frame of the whole message.
pub const IS_FINAL_FLAG: u16 = 0x2000;

/// A message that fits in a single fragment: begin- and end-fragment bits.
pub const UNFRAGMENTED_MESSAGE: u16 = 0xC000;

/// Opens a nested list or record.
pub const BEGIN_DATA_STRUCTURE_FLAG: u16 = 0x1000;

/// Closes a nested list or record.
pub const END_DATA_STRUCTURE_FLAG: u16 = 0x0800;

/// The frame stands for an absent value.
pub const IS_NULL_FLAG: u16 = 0x0400;

pub const FLAGS_LENGTH: usize = 2;

pub const FRAME_LENGTH_FIELD: usize = 4;

pub const MESSAGE_TYPE_LENGTH: usize = 4;

pub const CORRELATION_ID_LENGTH: usize = 8;

/// Offset of an operation's fixed-width response fields inside the initial
/// frame's content: message type, correlation id, one reserved byte.
pub const FIXED_FIELD_OFFSET: usize = 13;

/// Wire length of an initial frame with no payload: length field, flags,
/// message type, correlation id.
pub const HEADER_LENGTH: usize = 18;

/// True when every bit of `mask` is set in `flags`.
pub open spec fn spec_flag_set(flags: u16, mask: u16) -> bool {
    flags & mask == mask
}

pub fn is_flag_set(flags: u16, mask: u16) -> (r: bool)
    ensures
        r == spec_flag_set(flags, mask),
{
    flags & mask == mask
}

/// The data-structure markers are mutually exclusive: a flag mask that is
/// exactly the begin marker satisfies the begin predicate and neither the
/// end predicate nor the null predicate, and symmetrically for the end
/// marker, so a frame built with one marker bit never answers for the
/// other.
pub proof fn lemma_begin_end_marker_flags()
    ensures
        spec_flag_set(BEGIN_DATA_STRUCTURE_FLAG, BEGIN_DATA_STRUCTURE_FLAG),
        !spec_flag_set(BEGIN_DATA_STRUCTURE_FLAG, END_DATA_STRUCTURE_FLAG),
        !spec_flag_set(BEGIN_DATA_STRUCTURE_FLAG, IS_NULL_FLAG),
        spec_flag_set(END_DATA_STRUCTURE_FLAG, END_DATA_STRUCTURE_FLAG),
        !spec_flag_set(END_DATA_STRUCTURE_FLAG, BEGIN_DATA_STRUCTURE_FLAG),
        !spec_flag_set(END_DATA_STRUCTURE_FLAG, IS_NULL_FLAG),
{
    assert(0x1000u16 & 0x1000u16 == 0x1000u16) by (bit_vector);
    assert(0x1000u16 & 0x0800u16 != 0x0800u16) by (bit_vector);
    assert(0x1000u16 & 0x0400u16 != 0x0400u16) by (bit_vector);
    assert(0x0800u16 & 0x0800u16 == 0x0800u16) by (bit_vector);
    assert(0x0800u16 & 0x1000u16 != 0x1000u16) by (bit_vector);
    assert(0x0800u16 & 0x0400u16 != 0x0400u16) by (bit_vector);
}

/// Mathematical image of a [`Frame`].
#[verifier::ext_equal]
pub ghost struct FrameView {
    pub content: Seq<u8>,
    pub flags: u16,
    pub message_type: u32,
    pub correlation_id: u64,
    pub is_first: bool,
}

/// The smallest framed wire unit: a flag mask plus a content buffer.
///
/// Only a frame built by [`Frame::initial_frame`] (or parsed as a first
/// frame) exposes its message type and correlation id; asking either of any
/// other frame is a contract violation, ruled out by the accessors'
/// preconditions rather than answered with a default.
#[derive(PartialEq, Eq, Debug)]
pub struct Frame {
    pub content: Vec<u8>,
    pub flags: u16,
    pub message_type: u32,
    pub correlation_id: u64,
    pub is_first: bool,
}

impl View for Frame {
    type V = FrameView;

    open spec fn view(&self) -> FrameView {
        FrameView {
            content: self.content@,
            flags: self.flags,
            message_type: self.message_type,
            correlation_id: self.correlation_id,
            is_first: self.is_first,
        }
    }
}

/// Copies a byte buffer.
fn clone_bytes(v: &Vec<u8>) -> (r: Vec<u8>)
    ensures
        r@ == v@,
{
    let mut r: Vec<u8> = Vec::new();
    let mut i: usize = 0;
    while i < v.len()
        invariant
            i <= v@.len(),
            r@ == v@.take(i as int),
        decreases v@.len() - i,
    {
        r.push(v[i]);
        proof {
            assert(v@.take(i + 1) =~= v@.take(i as int).push(v@[i as int]));
        }
        i = i + 1;
    }
    proof {
        assert(v@.take(v@.len() as int) =~= v@);
    }
    r
}

impl Clone for Frame {
    fn clone(&self) -> (r: Frame)
        ensures
            r@ == self@,
    {
        Frame {
            content: clone_bytes(&self.content),
            flags: self.flags,
            message_type: self.message_type,
            correlation_id: self.correlation_id,
            is_first: self.is_first,
        }
    }
}

impl Frame {
    /// A non-initial frame holding the given content and flags.
    pub fn new(content: Vec<u8>, flags: u16) -> (r: Frame)
        ensures
            r@ == (FrameView {
                content: content@,
                flags,
                message_type: 0,
                correlation_id: 0,
                is_first: false,
            }),
    {
        Frame { content, flags, message_type: 0, correlation_id: 0, is_first: false }
    }

    /// The first frame of a message: its content begins with the 4-byte
    /// message type and the 8-byte correlation id, both little-endian.
    pub fn initial_frame(flags: u16, message_type: u32, correlation_id: u64) -> (r: Frame)
        ensures
            r@ == (FrameView {
                content: spec_u32_to_le_bytes(message_type) + spec_u64_to_le_bytes(correlation_id),
                flags,
                message_type,
                correlation_id,
                is_first: true,
            }),
    {
        let mut content = u32_to_le_bytes(message_type);
        let mut id_bytes = u64_to_le_bytes(correlation_id);
        content.append(&mut id_bytes);
        Frame { content, flags, message_type, correlation_id, is_first: true }
    }

    /// Parses one frame body (everything after the wire length field) back
    /// from bytes. A first frame additionally yields its message type and
    /// correlation id, read from the start of the content.
    pub fn from(content: Vec<u8>, is_first: bool) -> (r: Frame)
        requires
            content@.len() >= 2,
            is_first ==> content@.len() >= 14,
        ensures
            r@.flags == spec_u16_from_le_bytes(content@.subrange(0, 2)),
            r@.content == content@.skip(2),
            r@.is_first == is_first,
            r@.message_type == if is_first {
                spec_u32_from_le_bytes(content@.subrange(2, 6))
            } else {
                0u32
            },
            r@.correlation_id == if is_first {
                spec_u64_from_le_bytes(content@.subrange(6, 14))
            } else {
                0u64
            },
    {
        let flags = u16_from_le_bytes(slice_subrange(content.as_slice(), 0, 2));
        let rest = slice_to_vec(slice_subrange(content.as_slice(), 2, content.len()));
        proof {
            assert(content@.skip(2) =~= content@.subrange(2, content@.len() as int));
        }
        if is_first {
            let message_type = u32_from_le_bytes(slice_subrange(content.as_slice(), 2, 6));
            let correlation_id = u64_from_le_bytes(slice_subrange(content.as_slice(), 6, 14));
            Frame { content: rest, flags, message_type, correlation_id, is_first: true }
        } else {
            Frame { content: rest, flags, message_type: 0, correlation_id: 0, is_first: false }
        }
    }

    /// Appends fixed-width fields or payload bytes after what the frame
    /// already holds.
    pub fn append_content(&mut self, content: Vec<u8>)
        ensures
            final(self)@ == (FrameView { content: old(self)@.content + content@, ..old(self)@ }),
    {
        let mut content = content;
        self.content.append(&mut content);
    }

    pub fn is_end_frame(&self) -> (r: bool)
        ensures
            r == spec_flag_set(self@.flags, END_DATA_STRUCTURE_FLAG),
    {
        is_flag_set(self.flags, END_DATA_STRUCTURE_FLAG)
    }

    pub fn is_begin_frame(&self) -> (r: bool)
        ensures
            r == spec_flag_set(self@.flags, BEGIN_DATA_STRUCTURE_FLAG),
    {
        is_flag_set(self.flags, BEGIN_DATA_STRUCTURE_FLAG)
    }

    pub fn is_null_frame(&self) -> (r: bool)
        ensures
            r == spec_flag_set(self@.flags, IS_NULL_FLAG),
    {
        is_flag_set(self.flags, IS_NULL_FLAG)
    }

    /// The correlation id, defined for the first frame of a message only.
    pub fn id(&self) -> (r: u64)
        requires
            self@.is_first,
        ensures
            r == self@.correlation_id,
    {
        self.correlation_id
    }

    /// The message type, defined for the first frame of a message only.
    pub fn message_type(&self) -> (r: u32)
        requires
            self@.is_first,
        ensures
            r == self@.message_type,
    {
        self.message_type
    }

    /// The frame's wire body: flags (with the final-message bit OR'ed in
    /// when `is_final`) followed by the content. The length prefix is added
    /// by the transport layer, not here.
    pub fn payload(&self, is_final: bool) -> (r: Vec<u8>)
        ensures
            r@ == spec_u16_to_le_bytes(
                if is_final {
                    self@.flags | IS_FINAL_FLAG
                } else {
                    self@.flags
                },
            ) + self@.content,
    {
        let flags = if is_final {
            self.flags | IS_FINAL_FLAG
        } else {
            self.flags
        };
        let mut r = u16_to_le_bytes(flags);
        let mut content = clone_bytes(&self.content);
        r.append(&mut content);
        r
    }

    /// Takes the frame's content, leaving the frame empty.
    pub fn content(&mut self) -> (r: Vec<u8>)
        ensures
            r@ == old(self)@.content,
            final(self)@ == (FrameView { content: Seq::empty(), ..old(self)@ }),
    {
        let mut taken: Vec<u8> = Vec::new();
        core::mem::swap(&mut taken, &mut self.content);
        taken
    }
}

/// The views of a sequence of frames.
pub open spec fn frame_views(s: Seq<Frame>) -> Seq<FrameView> {
    Seq::new(s.len(), |i: int| s[i]@)
}

/// Mathematical image of a [`Message`].
#[verifier::ext_equal]
pub ghost struct MessageView {
    pub id: u64,
    pub message_type: u32,
    pub frames: Seq<FrameView>,
}

/// A correlated, possibly multi-frame logical request or response: an
/// ordered sequence of frames sharing one correlation id and message type,
/// the first being the initial frame.
#[derive(PartialEq, Eq, Debug)]
pub struct Message {
    pub id: u64,
    pub message_type: u32,
    pub frames: Vec<Frame>,
}

impl View for Message {
    type V = MessageView;

    open spec fn view(&self) -> MessageView {
        MessageView {
            id: self.id,
            message_type: self.message_type,
            frames: frame_views(self.frames@),
        }
    }
}

impl Message {
    pub fn new(id: u64, message_type: u32, initial_frame: Frame) -> (r: Message)
        ensures
            r@ == (MessageView { id, message_type, frames: seq![initial_frame@] }),
    {
        let mut frames: Vec<Frame> = Vec::new();
        frames.push(initial_frame);
        proof {
            assert(frame_views(frames@) =~= seq![initial_frame@]);
        }
        Message { id, message_type, frames }
    }

    /// Appends one frame; frame order is exactly encode/decode order.
    pub fn add(&mut self, frame: Frame)
        ensures
            final(self)@ == (MessageView {
                frames: old(self)@.frames.push(frame@),
                ..old(self)@
            }),
    {
        self.frames.push(frame);
        proof {
            assert(frame_views(self.frames@) =~= frame_views(old(self).frames@).push(frame@));
        }
    }

    pub fn id(&self) -> (r: u64)
        ensures
            r == self@.id,
    {
        self.id
    }

    pub fn message_type(&self) -> (r: u32)
        ensures
            r == self@.message_type,
    {
        self.message_type
    }

    pub fn len(&self) -> (r: usize)
        ensures
            r == self@.frames.len(),
    {
        self.frames.len()
    }

    /// The frame at a position, counted in encode order.
    pub fn frame_at(&self, i: usize) -> (r: &Frame)
        requires
            i < self@.frames.len(),
        ensures
            r@ == self@.frames[i as int],
    {
        &self.frames[i]
    }

    /// A fresh cursor over copies of the message's frames, for sequential
    /// decoding.
    pub fn iter(&self) -> (r: FrameReader)
        ensures
            r.frame_seq() == self@.frames,
            r.pos == 0,
            r.wf(),
    {
        let mut frames: Vec<Frame> = Vec::new();
        let n = self.frames.len();
        let mut i: usize = 0;
        while i < n
            invariant
                n == self.frames@.len(),
                i <= n,
                frame_views(frames@) == frame_views(self.frames@).take(i as int),
            decreases n - i,
        {
            let f = self.frames[i].clone();
            frames.push(f);
            proof {
                assert(frame_views(self.frames@).take(i as int).len() == i);
                assert(frame_views(frames@) =~= frame_views(self.frames@).take(i + 1));
            }
            i = i + 1;
        }
        proof {
            assert(frame_views(self.frames@).take(n as int) =~= frame_views(self.frames@));
        }
        FrameReader { frames, pos: 0 }
    }

    /// Parses a whole inbound byte string into a message: an initial frame,
    /// then further frames up to and including one bearing the final bit.
    pub fn from_bytes(bytes: Vec<u8>) -> (r: Result<Message, DecodeError>)
        ensures
            match spec_parse_message(bytes@) {
                Ok(mv) => r matches Ok(m) && m@ == mv,
                Err(e) => r matches Err(e2) && e2 == e,
            },
    {
        if bytes.len() < 18 {
            return Err(DecodeError::Truncated);
        }
        let flen = u32_from_le_bytes(slice_subrange(bytes.as_slice(), 0, 4)) as usize;
        if flen < 18 {
            return Err(DecodeError::BadFrameLength);
        }
        if flen > bytes.len() {
            return Err(DecodeError::Truncated);
        }
        let flags = u16_from_le_bytes(slice_subrange(bytes.as_slice(), 4, 6));
        let message_type = u32_from_le_bytes(slice_subrange(bytes.as_slice(), 6, 10));
        let id = u64_from_le_bytes(slice_subrange(bytes.as_slice(), 10, 18));
        let content = slice_to_vec(slice_subrange(bytes.as_slice(), 6, flen));
        let init = Frame { content, flags, message_type, correlation_id: id, is_first: true };
        match parse_plain_frames(slice_subrange(bytes.as_slice(), flen, bytes.len())) {
            Ok(rest) => {
                let mut rest = rest;
                let mut frames: Vec<Frame> = Vec::new();
                let ghost init_view = init@;
                let ghost rest_views = frame_views(rest@);
                frames.push(init);
                frames.append(&mut rest);
                proof {
                    assert(frame_views(frames@) =~= seq![init_view] + rest_views);
                }
                Ok(Message { id, message_type, frames })
            },
            Err(e) => Err(e),
        }
    }
}

/// Frames parsed from the bytes that follow a message's initial frame:
/// repeated `length | flags | content` records, stopping after a frame that
/// bears the final bit or when the bytes run out.
pub open spec fn spec_parse_plain_frames(bytes: Seq<u8>) -> Result<Seq<FrameView>, DecodeError>
    decreases bytes.len(),
{
    if bytes.len() == 0 {
        Ok(Seq::empty())
    } else if bytes.len() < 6 {
        Err(DecodeError::Truncated)
    } else {
        let flen = spec_u32_from_le_bytes(bytes.subrange(0, 4)) as int;
        if flen < 6 {
            Err(DecodeError::BadFrameLength)
        } else if flen > bytes.len() {
            Err(DecodeError::Truncated)
        } else {
            let flags = spec_u16_from_le_bytes(bytes.subrange(4, 6));
            let fv = FrameView {
                content: bytes.subrange(6, flen),
                flags,
                message_type: 0,
                correlation_id: 0,
                is_first: false,
            };
            if spec_flag_set(flags, IS_FINAL_FLAG) {
                Ok(seq![fv])
            } else {
                match spec_parse_plain_frames(bytes.skip(flen)) {
                    Ok(rest) => Ok(seq![fv] + rest),
                    Err(e) => Err(e),
                }
            }
        }
    }
}

/// A whole message parsed from inbound bytes: the initial frame's length,
/// flags, message type and correlation id, its content, then the remaining
/// frames.
pub open spec fn spec_parse_message(bytes: Seq<u8>) -> Result<MessageView, DecodeError> {
    if bytes.len() < 18 {
        Err(DecodeError::Truncated)
    } else {
        let flen = spec_u32_from_le_bytes(bytes.subrange(0, 4)) as int;
        if flen < 18 {
            Err(DecodeError::BadFrameLength)
        } else if flen > bytes.len() {
            Err(DecodeError::Truncated)
        } else {
            let flags = spec_u16_from_le_bytes(bytes.subrange(4, 6));
            let message_type = spec_u32_from_le_bytes(bytes.subrange(6, 10));
            let id = spec_u64_from_le_bytes(bytes.subrange(10, 18));
            let init = FrameView {
                content: bytes.subrange(6, flen),
                flags,
                message_type,
                correlation_id: id,
                is_first: true,
            };
            match spec_parse_plain_frames(bytes.skip(flen)) {
                Ok(rest) => Ok(MessageView { id, message_type, frames: seq![init] + rest }),
                Err(e) => Err(e),
            }
        }
    }
}

/// Exec mirror of [`spec_parse_plain_frames`].
fn parse_plain_frames(bytes: &[u8]) -> (r: Result<Vec<Frame>, DecodeError>)
    ensures
        match spec_parse_plain_frames(bytes@) {
            Ok(fvs) => r matches Ok(v) && frame_views(v@) == fvs,
            Err(e) => r matches Err(e2) && e2 == e,
        },
    decreases bytes@.len(),
{
    if bytes.len() == 0 {
        let r: Vec<Frame> = Vec::new();
        proof {
            assert(frame_views(r@) =~= Seq::<FrameView>::empty());
        }
        Ok(r)
    } else if bytes.len() < 6 {
        Err(DecodeError::Truncated)
    } else {
        let flen = u32_from_le_bytes(slice_subrange(bytes, 0, 4)) as usize;
        if flen < 6 {
            Err(DecodeError::BadFrameLength)
        } else if flen > bytes.len() {
            Err(DecodeError::Truncated)
        } else {
            let flags = u16_from_le_bytes(slice_subrange(bytes, 4, 6));
            let content = slice_to_vec(slice_subrange(bytes, 6, flen));
            let frame = Frame::new(content, flags);
            if is_flag_set(flags, IS_FINAL_FLAG) {
                let ghost fv = frame@;
                let mut v: Vec<Frame> = Vec::new();
                v.push(frame);
                proof {
                    assert(frame_views(v@) =~= seq![fv]);
                }
                Ok(v)
            } else {
                match parse_plain_frames(slice_subrange(bytes, flen, bytes.len())) {
                    Ok(rest) => {
                        let ghost fv = frame@;
                        let ghost rest_views = frame_views(rest@);
                        let mut rest = rest;
                        let mut v: Vec<Frame> = Vec::new();
                        v.push(frame);
                        v.append(&mut rest);
                        proof {
                            assert(frame_views(v@) =~= seq![fv] + rest_views);
                        }
                        Ok(v)
                    },
                    Err(e) => Err(e),
                }
            }
        }
    }
}

/// A cursor over the frames of one message, advanced frame by frame during
/// decoding.
pub struct FrameReader {
    pub frames: Vec<Frame>,
    pub pos: usize,
}

impl FrameReader {
    /// The cursor never passes the end of the frame sequence.
    pub open spec fn wf(&self) -> bool {
        self.pos <= self.frames@.len()
    }

    /// All frames the reader walks over.
    pub open spec fn frame_seq(&self) -> Seq<FrameView> {
        frame_views(self.frames@)
    }

    /// Consumes a message into a cursor positioned at its first frame.
    pub fn new(message: Message) -> (r: FrameReader)
        ensures
            r.frame_seq() == message@.frames,
            r.pos == 0,
            r.wf(),
    {
        FrameReader { frames: message.frames, pos: 0 }
    }

    pub fn has_next(&self) -> (r: bool)
        requires
            self.wf(),
        ensures
            r == (self.pos < self.frame_seq().len()),
    {
        self.pos < self.frames.len()
    }

    /// Whether the frame under the cursor bears the null bit.
    pub fn next_is_null(&self) -> (r: bool)
        requires
            self.wf(),
            self.pos < self.frame_seq().len(),
        ensures
            r == spec_flag_set(self.frame_seq()[self.pos as int].flags, IS_NULL_FLAG),
    {
        self.frames[self.pos].is_null_frame()
    }

    /// Whether the frame under the cursor closes a list or record.
    pub fn next_is_end(&self) -> (r: bool)
        requires
            self.wf(),
            self.pos < self.frame_seq().len(),
        ensures
            r == spec_flag_set(self.frame_seq()[self.pos as int].flags, END_DATA_STRUCTURE_FLAG),
    {
        self.frames[self.pos].is_end_frame()
    }

    /// Yields a copy of the frame under the cursor and advances past it, or
    /// fails when the message has run out of frames.
    pub fn next_frame(&mut self) -> (r: Result<Frame, DecodeError>)
        requires
            old(self).wf(),
        ensures
            final(self).frames@ == old(self).frames@,
            final(self).wf(),
            if old(self).pos < old(self).frame_seq().len() {
                r matches Ok(f) && f@ == old(self).frame_seq()[old(self).pos as int] && final(self).pos
                    == old(self).pos + 1
            } else {
                r matches Err(e) && e == DecodeError::MissingFrame && final(self).pos == old(self).pos
            },
    {
        if self.pos < self.frames.len() {
            let f = self.frames[self.pos].clone();
            self.pos = self.pos + 1;
            Ok(f)
        } else {
            Err(DecodeError::MissingFrame)
        }
    }
}

} // verus!
