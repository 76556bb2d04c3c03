//! Frame-level codec routines: strings, UUID values, nullable values and
//! homogeneous lists, each expressed in terms of frame operations.
//!
//! The generic nullable/list helpers are parameterized over the
//! [`WireCodec`] capability, which fixes both the frames a value encodes to
//! and the functional parse that reads it back.

use vstd::prelude::*;
use vstd::utf8::{decode_utf8, encode_utf8, valid_utf8};
use vstd::slice::slice_to_vec;
use crate::codec::{
    spec_uuid_to_bytes, write_u64_le, write_u8, ByteReader, Uuid,
};
use crate::messaging::error::DecodeError;
use crate::remote::message::{
    spec_flag_set, Frame, FrameReader, FrameView, Message, MessageView, BEGIN_DATA_STRUCTURE_FLAG,
    DEFAULT_FLAGS, END_DATA_STRUCTURE_FLAG, IS_NULL_FLAG,
};

verus! {

/// The image of a non-initial frame with the given content and flags.
pub open spec fn plain_frame(content: Seq<u8>, flags: u16) -> FrameView {
    FrameView { content, flags, message_type: 0, correlation_id: 0, is_first: false }
}

/// The views of a sequence of values.
pub open spec fn seq_views<T: View>(s: Seq<T>) -> Seq<T::V> {
    Seq::new(s.len(), |i: int| s[i]@)
}

/// The view of an optional value.
pub open spec fn option_view<T: View>(v: Option<T>) -> Option<T::V> {
    match v {
        Some(x) => Some(x@),
        None => None,
    }
}

/// An encode/decode capability for one logical field of an operation.
///
/// `spec_frames` fixes the frames a value encodes to, `spec_parse` the
/// functional parse that reads a value back out of a frame sequence. The
/// two proof obligations tie them together: a parse consumes at least one
/// frame, and parsing directly after encoding yields the value back.
pub trait WireCodec: View + Sized {
    /// The frames the value encodes to.
    spec fn spec_frames(v: Self::V) -> Seq<FrameView>;

    /// The value read at `pos`, with the position after it; `None` when the
    /// frames are malformed there.
    spec fn spec_parse(frames: Seq<FrameView>, pos: int) -> Option<(Self::V, int)>;

    /// An encoded value occupies at least one frame, and its first frame
    /// carries neither the null marker nor the end-data-structure marker,
    /// so it can never be mistaken for an absent value or a list end.
    proof fn lemma_encoded_shape(v: Self::V)
        ensures
            Self::spec_frames(v).len() >= 1,
            !spec_flag_set(Self::spec_frames(v)[0].flags, IS_NULL_FLAG),
            !spec_flag_set(Self::spec_frames(v)[0].flags, END_DATA_STRUCTURE_FLAG),
    ;

    /// A successful parse consumes at least one frame and stays in bounds.
    proof fn lemma_parse_bounds(frames: Seq<FrameView>, pos: int)
        requires
            0 <= pos <= frames.len(),
        ensures
            Self::spec_parse(frames, pos) matches Some((v, p)) ==> pos < p <= frames.len(),
    ;

    /// Parsing right where a value was encoded yields that value back.
    proof fn lemma_parse_of_encoded(v: Self::V, frames: Seq<FrameView>, pos: int)
        requires
            0 <= pos,
            pos + Self::spec_frames(v).len() <= frames.len(),
            frames.subrange(pos, pos + Self::spec_frames(v).len() as int) == Self::spec_frames(v),
        ensures
            Self::spec_parse(frames, pos) == Some(
                (v, pos + Self::spec_frames(v).len() as int),
            ),
    ;

    /// Appends the value's frames to the message.
    fn encode_value(&self, message: &mut Message)
        ensures
            final(message)@ == (MessageView {
                frames: old(message)@.frames + Self::spec_frames(self@),
                ..old(message)@
            }),
    ;

    /// Reads one value at the cursor, advancing exactly as `spec_parse`
    /// says; fails exactly where `spec_parse` is `None`.
    fn decode_value(r: &mut FrameReader) -> (res: Result<Self, DecodeError>)
        requires
            old(r).wf(),
        ensures
            final(r).frames@ == old(r).frames@,
            final(r).wf(),
            match Self::spec_parse(old(r).frame_seq(), old(r).pos as int) {
                Some((v, p)) => res matches Ok(x) && x@ == v && final(r).pos == p,
                None => res is Err && old(r).pos <= final(r).pos,
            },
    ;
}

// --- strings ---

/// Relies on `String::from_utf8`: it succeeds exactly on valid UTF-8, and
/// the characters of the result are the UTF-8 decoding of the input bytes.
#[verifier::external_body]
fn string_from_utf8(bytes: Vec<u8>) -> (r: Option<String>)
    ensures
        r is Some <==> valid_utf8(bytes@),
        r matches Some(s) ==> s@ == decode_utf8(bytes@),
{
    String::from_utf8(bytes).ok()
}

/// The single frame a string encodes to: its raw UTF-8 bytes, no length
/// field and no terminator.
pub open spec fn spec_string_frames(v: Seq<char>) -> Seq<FrameView> {
    seq![plain_frame(encode_utf8(v), DEFAULT_FLAGS)]
}

/// The string read from one frame: the UTF-8 decoding of the whole frame
/// content, or nothing when the frame is missing or not valid UTF-8.
pub open spec fn spec_parse_string(frames: Seq<FrameView>, pos: int) -> Option<(Seq<char>, int)> {
    if 0 <= pos < frames.len() && valid_utf8(frames[pos].content) {
        Some((decode_utf8(frames[pos].content), pos + 1))
    } else {
        None
    }
}

/// Appends one frame holding the string's raw UTF-8 bytes.
pub fn encode_string(message: &mut Message, value: String)
    ensures
        final(message)@ == (MessageView {
            frames: old(message)@.frames + spec_string_frames(value@),
            ..old(message)@
        }),
{
    let bytes = slice_to_vec(value.as_str().as_bytes());
    let frame = Frame::new(bytes, DEFAULT_FLAGS);
    message.add(frame);
    proof {
        assert(old(message)@.frames.push(frame@) =~= old(message)@.frames + spec_string_frames(
            value@,
        ));
    }
}

/// Reads the next frame's whole content as a UTF-8 string.
pub fn decode_string(r: &mut FrameReader) -> (res: Result<String, DecodeError>)
    requires
        old(r).wf(),
    ensures
        final(r).frames@ == old(r).frames@,
        final(r).wf(),
        match spec_parse_string(old(r).frame_seq(), old(r).pos as int) {
            Some((v, p)) => res matches Ok(s) && s@ == v && final(r).pos == p,
            None => res is Err && old(r).pos <= final(r).pos,
        },
{
    match r.next_frame() {
        Ok(frame) => {
            let mut frame = frame;
            let bytes = frame.content();
            match string_from_utf8(bytes) {
                Some(s) => Ok(s),
                None => Err(DecodeError::InvalidUtf8),
            }
        },
        Err(_) => Err(DecodeError::MissingFrame),
    }
}

/// Round trip for strings: parsing at the frame where a string was
/// encoded yields the same characters and consumes exactly that frame.
pub proof fn lemma_string_round_trip(v: Seq<char>, frames: Seq<FrameView>, pos: int)
    requires
        0 <= pos < frames.len(),
        frames[pos] == spec_string_frames(v)[0],
    ensures
        spec_parse_string(frames, pos) == Some((v, pos + 1)),
{
    broadcast use vstd::utf8::encode_utf8_valid_utf8, vstd::utf8::encode_utf8_decode_utf8;

}

impl WireCodec for String {
    open spec fn spec_frames(v: Seq<char>) -> Seq<FrameView> {
        spec_string_frames(v)
    }

    open spec fn spec_parse(frames: Seq<FrameView>, pos: int) -> Option<(Seq<char>, int)> {
        spec_parse_string(frames, pos)
    }

    proof fn lemma_encoded_shape(v: Seq<char>) {
        assert(!spec_flag_set(DEFAULT_FLAGS, IS_NULL_FLAG)) by (bit_vector);
        assert(!spec_flag_set(DEFAULT_FLAGS, END_DATA_STRUCTURE_FLAG)) by (bit_vector);
    }

    proof fn lemma_parse_bounds(frames: Seq<FrameView>, pos: int) {
    }

    proof fn lemma_parse_of_encoded(v: Seq<char>, frames: Seq<FrameView>, pos: int) {
        broadcast use vstd::utf8::encode_utf8_valid_utf8, vstd::utf8::encode_utf8_decode_utf8;

        assert(frames[pos] == spec_string_frames(v)[0]);
    }

    fn encode_value(&self, message: &mut Message) {
        let value = self.clone();
        encode_string(message, value);
    }

    fn decode_value(r: &mut FrameReader) -> (res: Result<Self, DecodeError>) {
        decode_string(r)
    }
}

// --- UUID values ---

/// The UUID (or the null marker) read from a byte buffer at `pos`: one
/// marker byte, then the most-significant and least-significant halves,
/// both little-endian.
pub open spec fn spec_parse_uuid(bytes: Seq<u8>, pos: int) -> Option<(Option<Uuid>, int)> {
    if !(0 <= pos < bytes.len()) {
        None
    } else if bytes[pos] != 0 {
        Some((None, pos + 1))
    } else if pos + 17 > bytes.len() {
        None
    } else {
        Some(
            (
                Some(
                    Uuid {
                        msb: vstd::bytes::spec_u64_from_le_bytes(bytes.subrange(pos + 1, pos + 9)),
                        lsb: vstd::bytes::spec_u64_from_le_bytes(bytes.subrange(pos + 9, pos + 17)),
                    },
                ),
                pos + 17,
            ),
        )
    }
}

/// Writes a UUID: a zero not-null byte, then the most-significant half,
/// then the least-significant half, each little-endian.
pub fn encode_uuid(writeable: &mut Vec<u8>, uuid: Uuid)
    ensures
        final(writeable)@ == old(writeable)@ + spec_uuid_to_bytes(uuid),
{
    let ghost start = writeable@;
    write_u8(writeable, 0);
    write_u64_le(writeable, uuid.msb);
    write_u64_le(writeable, uuid.lsb);
    proof {
        assert(writeable@ =~= start + spec_uuid_to_bytes(uuid));
    }
}

/// Reads a UUID, or `None` when the leading marker byte says the value is
/// absent.
pub fn decode_uuid(readable: &mut ByteReader) -> (res: Result<Option<Uuid>, DecodeError>)
    requires
        old(readable).wf(),
    ensures
        final(readable).bytes@ == old(readable).bytes@,
        final(readable).wf(),
        match spec_parse_uuid(old(readable).bytes@, old(readable).pos as int) {
            Some((v, p)) => res matches Ok(u) && u == v && final(readable).pos == p,
            None => res matches Err(e) && e == DecodeError::Truncated && old(readable).pos
                <= final(readable).pos,
        },
{
    let is_null = match readable.read_bool() {
        Ok(b) => b,
        Err(e) => {
            return Err(e);
        },
    };
    if is_null {
        return Ok(None);
    }
    let msb = match readable.read_u64_le() {
        Ok(v) => v,
        Err(e) => {
            return Err(e);
        },
    };
    let lsb = match readable.read_u64_le() {
        Ok(v) => v,
        Err(e) => {
            return Err(e);
        },
    };
    Ok(Some(Uuid { msb, lsb }))
}

/// Encoding a UUID and parsing at the same spot yields it back.
pub proof fn lemma_uuid_round_trip(u: Uuid, bytes: Seq<u8>, pos: int)
    requires
        0 <= pos,
        pos + 17 <= bytes.len(),
        bytes.subrange(pos, pos + 17) == spec_uuid_to_bytes(u),
    ensures
        spec_parse_uuid(bytes, pos) == Some((Some(u), pos + 17)),
{
    vstd::bytes::lemma_auto_spec_u64_to_from_le_bytes();
    assert(bytes[pos] == spec_uuid_to_bytes(u)[0]);
    assert(bytes.subrange(pos + 1, pos + 9) =~= spec_uuid_to_bytes(u).subrange(1, 9));
    assert(bytes.subrange(pos + 9, pos + 17) =~= spec_uuid_to_bytes(u).subrange(9, 17));
    assert(spec_uuid_to_bytes(u).subrange(1, 9) =~= vstd::bytes::spec_u64_to_le_bytes(u.msb));
    assert(spec_uuid_to_bytes(u).subrange(9, 17) =~= vstd::bytes::spec_u64_to_le_bytes(u.lsb));
}

// --- nullable values ---

/// The frames of an optional value: the value's own encoding when present,
/// one empty frame bearing the null bit when absent.
pub open spec fn spec_nullable_frames<T: WireCodec>(v: Option<T::V>) -> Seq<FrameView> {
    match v {
        Some(x) => T::spec_frames(x),
        None => seq![plain_frame(Seq::empty(), IS_NULL_FLAG)],
    }
}

/// The optional value read at `pos`. A missing frame or a frame bearing
/// the null bit reads as absent; the cursor moves only for a present
/// value, the null frame itself is left in place for the frame count of
/// the surrounding operation.
pub open spec fn spec_parse_nullable<T: WireCodec>(frames: Seq<FrameView>, pos: int) -> Option<
    (Option<T::V>, int),
> {
    if pos >= frames.len() {
        Some((None, pos))
    } else if spec_flag_set(frames[pos].flags, IS_NULL_FLAG) {
        Some((None, pos))
    } else {
        match T::spec_parse(frames, pos) {
            Some((v, p)) => Some((Some(v), p)),
            None => None,
        }
    }
}

/// Encodes a present value normally; an absent one as a single empty frame
/// with the null bit set.
pub fn encode_nullable<T: WireCodec>(message: &mut Message, value: Option<T>)
    ensures
        final(message)@ == (MessageView {
            frames: old(message)@.frames + spec_nullable_frames::<T>(option_view(value)),
            ..old(message)@
        }),
{
    match value {
        Some(v) => {
            v.encode_value(message);
        },
        None => {
            let frame = Frame::new(Vec::new(), IS_NULL_FLAG);
            message.add(frame);
            proof {
                assert(message@.frames =~= old(message)@.frames + spec_nullable_frames::<T>(
                    option_view::<T>(None),
                ));
            }
        },
    }
}

/// Reads an optional value: absent when the frames have run out or the
/// next frame bears the null bit, present otherwise.
pub fn decode_nullable<T: WireCodec>(r: &mut FrameReader) -> (res: Result<Option<T>, DecodeError>)
    requires
        old(r).wf(),
    ensures
        final(r).frames@ == old(r).frames@,
        final(r).wf(),
        match spec_parse_nullable::<T>(old(r).frame_seq(), old(r).pos as int) {
            Some((v, p)) => res matches Ok(x) && option_view(x) == v && final(r).pos == p,
            None => res is Err && old(r).pos <= final(r).pos,
        },
{
    if !r.has_next() {
        Ok(None)
    } else if r.next_is_null() {
        Ok(None)
    } else {
        match T::decode_value(r) {
            Ok(v) => Ok(Some(v)),
            Err(e) => Err(e),
        }
    }
}

// --- homogeneous lists ---

/// The frames of a homogeneous list: an empty begin-marker frame, each
/// element's encoding in order, an empty end-marker frame.
pub open spec fn spec_list_frames<T: WireCodec>(vs: Seq<T::V>) -> Seq<FrameView> {
    seq![plain_frame(Seq::empty(), BEGIN_DATA_STRUCTURE_FLAG)] + spec_list_elem_frames::<T>(vs)
        + seq![plain_frame(Seq::empty(), END_DATA_STRUCTURE_FLAG)]
}

/// The concatenated encodings of a list's elements.
pub open spec fn spec_list_elem_frames<T: WireCodec>(vs: Seq<T::V>) -> Seq<FrameView>
    decreases vs.len(),
{
    if vs.len() == 0 {
        Seq::empty()
    } else {
        T::spec_frames(vs[0]) + spec_list_elem_frames::<T>(vs.drop_first())
    }
}

/// Appending one element to a list appends that element's frames.
proof fn lemma_list_elem_frames_push<T: WireCodec>(vs: Seq<T::V>, v: T::V)
    ensures
        spec_list_elem_frames::<T>(vs.push(v)) == spec_list_elem_frames::<T>(vs) + T::spec_frames(
            v,
        ),
    decreases vs.len(),
{
    if vs.len() == 0 {
        assert(vs.push(v).drop_first() =~= Seq::<T::V>::empty());
        assert(vs =~= Seq::<T::V>::empty());
        assert(spec_list_elem_frames::<T>(Seq::<T::V>::empty()) == Seq::<FrameView>::empty());
        assert(vs.push(v)[0] == v);
        assert(spec_list_elem_frames::<T>(vs.push(v)) == T::spec_frames(v)
            + Seq::<FrameView>::empty());
        assert(spec_list_elem_frames::<T>(vs.push(v)) =~= spec_list_elem_frames::<T>(vs)
            + T::spec_frames(v));
    } else {
        assert(vs.push(v).drop_first() =~= vs.drop_first().push(v));
        lemma_list_elem_frames_push::<T>(vs.drop_first(), v);
        assert(vs.push(v)[0] == vs[0]);
        assert(spec_list_elem_frames::<T>(vs.push(v)) =~= spec_list_elem_frames::<T>(vs)
            + T::spec_frames(v));
    }
}

/// Appends a begin-marker frame, each element's encoding in order, and an
/// end-marker frame.
pub fn encode_list<T: WireCodec>(message: &mut Message, list: Vec<T>)
    ensures
        final(message)@ == (MessageView {
            frames: old(message)@.frames + spec_list_frames::<T>(seq_views(list@)),
            ..old(message)@
        }),
{
    let begin = Frame::new(Vec::new(), BEGIN_DATA_STRUCTURE_FLAG);
    message.add(begin);
    let n = list.len();
    let mut i: usize = 0;
    while i < n
        invariant
            n == list@.len(),
            i <= n,
            message@.id == old(message)@.id,
            message@.message_type == old(message)@.message_type,
            message@.frames == old(message)@.frames + seq![
                plain_frame(Seq::empty(), BEGIN_DATA_STRUCTURE_FLAG),
            ] + spec_list_elem_frames::<T>(seq_views(list@).take(i as int)),
        decreases n - i,
    {
        let item = &list[i];
        item.encode_value(message);
        proof {
            assert(seq_views(list@).take(i + 1) =~= seq_views(list@).take(i as int).push(
                list@[i as int]@,
            ));
            lemma_list_elem_frames_push::<T>(seq_views(list@).take(i as int), list@[i as int]@);
            assert(message@.frames =~= old(message)@.frames + seq![
                plain_frame(Seq::empty(), BEGIN_DATA_STRUCTURE_FLAG),
            ] + spec_list_elem_frames::<T>(seq_views(list@).take(i + 1)));
        }
        i = i + 1;
    }
    let end = Frame::new(Vec::new(), END_DATA_STRUCTURE_FLAG);
    message.add(end);
    proof {
        assert(seq_views(list@).take(n as int) =~= seq_views(list@));
        assert(message@.frames =~= old(message)@.frames + spec_list_frames::<T>(seq_views(list@)));
    }
}

/// The list elements read starting at `pos`: element encodings drained one
/// by one until the matching end-marker frame, which is consumed too.
pub open spec fn spec_parse_list_elems<T: WireCodec>(frames: Seq<FrameView>, pos: int) -> Option<
    (Seq<T::V>, int),
>
    decreases frames.len() - pos,
{
    if !(0 <= pos < frames.len()) {
        None
    } else if spec_flag_set(frames[pos].flags, END_DATA_STRUCTURE_FLAG) {
        Some((Seq::empty(), pos + 1))
    } else {
        match T::spec_parse(frames, pos) {
            Some((v, p)) => if pos < p <= frames.len() {
                match spec_parse_list_elems::<T>(frames, p) {
                    Some((vs, q)) => Some((seq![v] + vs, q)),
                    None => None,
                }
            } else {
                None
            },
            None => None,
        }
    }
}

/// The whole list read at `pos`: one begin-marker frame, then the elements
/// up to and including the end marker.
pub open spec fn spec_parse_list<T: WireCodec>(frames: Seq<FrameView>, pos: int) -> Option<
    (Seq<T::V>, int),
> {
    if 0 <= pos < frames.len() {
        spec_parse_list_elems::<T>(frames, pos + 1)
    } else {
        None
    }
}

/// Reads a list: consumes the begin-marker frame, then drains elements
/// until the matching end-marker frame.
pub fn decode_list<T: WireCodec>(r: &mut FrameReader) -> (res: Result<Vec<T>, DecodeError>)
    requires
        old(r).wf(),
    ensures
        final(r).frames@ == old(r).frames@,
        final(r).wf(),
        match spec_parse_list::<T>(old(r).frame_seq(), old(r).pos as int) {
            Some((vs, p)) => res matches Ok(xs) && seq_views(xs@) == vs && final(r).pos == p,
            None => res is Err && old(r).pos <= final(r).pos,
        },
{
    match r.next_frame() {
        Ok(_) => {},
        Err(e) => {
            return Err(e);
        },
    }
    let mut items: Vec<T> = Vec::new();
    let ghost fs = old(r).frame_seq();
    let ghost start = r.pos as int;
    proof {
        assert(seq_views(items@) =~= Seq::<T::V>::empty());
        if let Some((vs, p)) = spec_parse_list_elems::<T>(fs, start) {
            assert(Seq::<T::V>::empty() + vs =~= vs);
        }
    }
    loop
        invariant
            r.wf(),
            r.frames@ == old(r).frames@,
            fs == old(r).frame_seq(),
            r.frame_seq() == fs,
            start == old(r).pos + 1,
            old(r).pos < fs.len(),
            start <= r.pos as int <= fs.len(),
            (match spec_parse_list_elems::<T>(fs, r.pos as int) {
                Some((vs, p)) => spec_parse_list_elems::<T>(fs, start) == Some(
                    (seq_views(items@) + vs, p),
                ),
                None => spec_parse_list_elems::<T>(fs, start) is None,
            }),
        decreases fs.len() - r.pos,
    {
        if !r.has_next() {
            proof {
                assert(spec_parse_list_elems::<T>(fs, r.pos as int) is None);
            }
            return Err(DecodeError::MissingFrame);
        }
        if r.next_is_end() {
            proof {
                assert(spec_parse_list_elems::<T>(fs, r.pos as int) == Some(
                    (Seq::<T::V>::empty(), r.pos + 1),
                ));
                assert(seq_views(items@) + Seq::<T::V>::empty() =~= seq_views(items@));
            }
            match r.next_frame() {
                Ok(_) => {},
                Err(e) => {
                    return Err(e);
                },
            }
            return Ok(items);
        }
        let ghost pos_before = r.pos as int;
        match T::decode_value(r) {
            Ok(v) => {
                proof {
                    T::lemma_parse_bounds(fs, pos_before);
                    assert(spec_parse_list_elems::<T>(fs, pos_before) == (
                    match spec_parse_list_elems::<T>(fs, r.pos as int) {
                        Some((vs2, q)) => Some((seq![v@] + vs2, q)),
                        None => None,
                    }));
                }
                let ghost items_before = items@;
                items.push(v);
                proof {
                    assert(seq_views(items@) =~= seq_views(items_before).push(v@));
                    if let Some((vs2, q)) = spec_parse_list_elems::<T>(fs, r.pos as int) {
                        assert(seq_views(items_before) + (seq![v@] + vs2) =~= seq_views(items@)
                            + vs2);
                    }
                }
            },
            Err(e) => {
                return Err(e);
            },
        }
    }
}

/// Round trip for lists: parsing where a list was encoded yields the same
/// elements, with the cursor just past the end marker.
pub proof fn lemma_list_round_trip<T: WireCodec>(vs: Seq<T::V>, frames: Seq<FrameView>, pos: int)
    requires
        0 <= pos,
        pos + spec_list_frames::<T>(vs).len() <= frames.len(),
        frames.subrange(pos, pos + spec_list_frames::<T>(vs).len() as int) == spec_list_frames::<
            T,
        >(vs),
    ensures
        spec_parse_list::<T>(frames, pos) == Some(
            (vs, pos + spec_list_frames::<T>(vs).len() as int),
        ),
{
    let all = spec_list_frames::<T>(vs);
    let elems = spec_list_elem_frames::<T>(vs);
    let tail = elems + seq![plain_frame(Seq::empty(), END_DATA_STRUCTURE_FLAG)];
    assert(all.len() == elems.len() + 2);
    assert forall|i: int| 0 <= i < all.len() implies frames[pos + i] == all[i] by {
        assert(frames.subrange(pos, pos + all.len() as int)[i] == frames[pos + i]);
    }
    assert(frames.subrange(pos + 1, pos + 1 + elems.len() + 1) =~= tail) by {
        assert forall|i: int| 0 <= i < elems.len() + 1 implies frames.subrange(
            pos + 1,
            pos + 1 + elems.len() + 1,
        )[i] == tail[i] by {
            assert(frames.subrange(pos + 1, pos + 1 + elems.len() + 1)[i] == frames[pos + 1 + i]);
            assert(frames[pos + 1 + i] == all[i + 1]);
            assert(all[i + 1] == tail[i]);
        }
    }
    lemma_list_elems_round_trip::<T>(vs, frames, pos + 1);
}

/// Round trip for the element run of a list, up to and including the end
/// marker.
proof fn lemma_list_elems_round_trip<T: WireCodec>(vs: Seq<T::V>, frames: Seq<FrameView>, pos: int)
    requires
        0 <= pos,
        pos + spec_list_elem_frames::<T>(vs).len() + 1 <= frames.len(),
        frames.subrange(pos, pos + spec_list_elem_frames::<T>(vs).len() + 1)
            == spec_list_elem_frames::<T>(vs) + seq![
            plain_frame(Seq::empty(), END_DATA_STRUCTURE_FLAG),
        ],
    ensures
        spec_parse_list_elems::<T>(frames, pos) == Some(
            (vs, pos + spec_list_elem_frames::<T>(vs).len() + 1),
        ),
    decreases vs.len(),
{
    let elems = spec_list_elem_frames::<T>(vs);
    let end = plain_frame(Seq::empty(), END_DATA_STRUCTURE_FLAG);
    let tail = elems + seq![end];
    assert forall|i: int| 0 <= i < tail.len() implies frames[pos + i] == tail[i] by {
        assert(frames.subrange(pos, pos + tail.len() as int)[i] == frames[pos + i]);
    }
    if vs.len() == 0 {
        assert(elems == Seq::<FrameView>::empty());
        assert(tail[0] == end);
        assert(frames[pos] == end);
        assert(spec_flag_set(END_DATA_STRUCTURE_FLAG, END_DATA_STRUCTURE_FLAG)) by (bit_vector);
        assert(Seq::<T::V>::empty() =~= vs);
    } else {
        let head = T::spec_frames(vs[0]);
        let head_len = head.len() as int;
        let rest = spec_list_elem_frames::<T>(vs.drop_first());
        T::lemma_encoded_shape(vs[0]);
        assert(elems == head + rest);
        assert(frames.subrange(pos, pos + head_len) =~= head) by {
            assert forall|i: int| 0 <= i < head_len implies frames.subrange(
                pos,
                pos + head_len,
            )[i] == head[i] by {
                assert(frames.subrange(pos, pos + head_len)[i] == frames[pos + i]);
                assert(tail[i] == elems[i]);
                assert(elems[i] == head[i]);
            }
        }
        T::lemma_parse_of_encoded(vs[0], frames, pos);
        assert(frames[pos] == head[0]);
        assert(frames.subrange(pos + head_len, pos + head_len + rest.len() + 1) =~= rest + seq![
            end,
        ]) by {
            assert forall|i: int| 0 <= i < rest.len() + 1 implies frames.subrange(
                pos + head_len,
                pos + head_len + rest.len() + 1,
            )[i] == (rest + seq![end])[i] by {
                assert(frames.subrange(pos + head_len, pos + head_len + rest.len() + 1)[i]
                    == frames[pos + head_len + i]);
                assert(frames[pos + head_len + i] == tail[head_len + i]);
                if i < rest.len() {
                    assert(tail[head_len + i] == elems[head_len + i]);
                    assert(elems[head_len + i] == rest[i]);
                } else {
                    assert(tail[head_len + i] == end);
                }
            }
        }
        lemma_list_elems_round_trip::<T>(vs.drop_first(), frames, pos + head_len);
        assert(seq![vs[0]] + vs.drop_first() =~= vs);
    }
}

/// Round trip for nullable values: parsing where an optional value was
/// encoded yields the same optional value.
pub proof fn lemma_nullable_round_trip<T: WireCodec>(
    v: Option<T::V>,
    frames: Seq<FrameView>,
    pos: int,
)
    requires
        0 <= pos,
        pos + spec_nullable_frames::<T>(v).len() <= frames.len(),
        frames.subrange(pos, pos + spec_nullable_frames::<T>(v).len() as int)
            == spec_nullable_frames::<T>(v),
    ensures
        spec_parse_nullable::<T>(frames, pos) matches Some((w, p)) && w == v,
{
    match v {
        Some(x) => {
            T::lemma_encoded_shape(x);
            assert(frames[pos] == T::spec_frames(x)[0]);
            T::lemma_parse_of_encoded(x, frames, pos);
        },
        None => {
            assert(frames[pos] == spec_nullable_frames::<T>(v)[0]);
            assert(spec_flag_set(IS_NULL_FLAG, IS_NULL_FLAG)) by (bit_vector);
        },
    }
}

} // verus!
