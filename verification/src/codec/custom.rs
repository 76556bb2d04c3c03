//! Codecs for the protocol's composite aggregates: the endpoint descriptor
//! (a begin marker, a 4-byte port field, a string host field, an end
//! marker) and the replica-timestamp list (fixed-size records packed
//! back-to-back in a single frame).

use vstd::prelude::*;
use vstd::bytes::{spec_u32_from_le_bytes, spec_u32_to_le_bytes, u32_to_le_bytes};
use vstd::utf8::encode_utf8;
use crate::codec::util::{
    decode_string, decode_uuid, encode_string, encode_uuid, plain_frame, spec_parse_string,
    spec_parse_uuid, WireCodec,
};
use crate::codec::{
    spec_i64_of_u64, spec_i64_to_le_bytes, spec_uuid_to_bytes, write_i64_le, ByteReader, Uuid,
};
use crate::messaging::error::DecodeError;
use crate::messaging::{Address, AddressView, ReplicaTimestampEntry};
use crate::remote::message::{
    spec_flag_set, Frame, FrameReader, FrameView, Message, MessageView, BEGIN_DATA_STRUCTURE_FLAG,
    DEFAULT_FLAGS, END_DATA_STRUCTURE_FLAG, IS_NULL_FLAG,
};

verus! {

/// Wire size of one replica-timestamp record: an encoded UUID plus an
/// 8-byte timestamp.
pub const REPLICA_TIMESTAMP_ENTRY_SIZE: usize = 25;

// --- the endpoint descriptor ---

/// The frames of an endpoint descriptor: begin marker, 4-byte port field,
/// string host field, end marker.
pub open spec fn spec_address_frames(v: AddressView) -> Seq<FrameView> {
    seq![
        plain_frame(Seq::empty(), BEGIN_DATA_STRUCTURE_FLAG),
        plain_frame(spec_u32_to_le_bytes(v.port), DEFAULT_FLAGS),
        plain_frame(encode_utf8(v.host), DEFAULT_FLAGS),
        plain_frame(Seq::empty(), END_DATA_STRUCTURE_FLAG),
    ]
}

/// The endpoint read at `pos`: one frame consumed unchecked as the begin
/// marker, a port read from the first four bytes of the next frame, a
/// string host, and one more frame consumed unchecked as the end marker
/// (skipped silently when the message ends there).
pub open spec fn spec_parse_address(frames: Seq<FrameView>, pos: int) -> Option<
    (AddressView, int),
> {
    if !(0 <= pos && pos + 2 <= frames.len()) {
        None
    } else if frames[pos + 1].content.len() < 4 {
        None
    } else {
        let port = spec_u32_from_le_bytes(frames[pos + 1].content.subrange(0, 4));
        match spec_parse_string(frames, pos + 2) {
            Some((host, p)) => Some(
                (
                    AddressView { host, port },
                    if p < frames.len() {
                        p + 1
                    } else {
                        p
                    },
                ),
            ),
            None => None,
        }
    }
}

/// Reads an endpoint descriptor: begin marker, port field, host string,
/// end marker.
pub fn decode_address(r: &mut FrameReader) -> (res: Result<Address, DecodeError>)
    requires
        old(r).wf(),
    ensures
        final(r).frames@ == old(r).frames@,
        final(r).wf(),
        match spec_parse_address(old(r).frame_seq(), old(r).pos as int) {
            Some((v, p)) => res matches Ok(a) && a@ == v && final(r).pos == p,
            None => res is Err && old(r).pos <= final(r).pos,
        },
{
    match r.next_frame() {
        Ok(_) => {},
        Err(e) => {
            return Err(e);
        },
    }
    let port_frame = match r.next_frame() {
        Ok(f) => f,
        Err(e) => {
            return Err(e);
        },
    };
    let mut port_frame = port_frame;
    let mut port_reader = ByteReader::new(port_frame.content());
    let port = match port_reader.read_u32_le() {
        Ok(p) => p,
        Err(e) => {
            return Err(e);
        },
    };
    let host = match decode_string(r) {
        Ok(h) => h,
        Err(e) => {
            return Err(e);
        },
    };
    if r.has_next() {
        match r.next_frame() {
            Ok(_) => {},
            Err(e) => {
                return Err(e);
            },
        }
    }
    Ok(Address { host, port })
}

impl WireCodec for Address {
    open spec fn spec_frames(v: AddressView) -> Seq<FrameView> {
        spec_address_frames(v)
    }

    open spec fn spec_parse(frames: Seq<FrameView>, pos: int) -> Option<(AddressView, int)> {
        spec_parse_address(frames, pos)
    }

    proof fn lemma_encoded_shape(v: AddressView) {
        assert(spec_address_frames(v)[0] == plain_frame(Seq::empty(), BEGIN_DATA_STRUCTURE_FLAG));
        assert(!spec_flag_set(BEGIN_DATA_STRUCTURE_FLAG, IS_NULL_FLAG)) by (bit_vector);
        assert(!spec_flag_set(BEGIN_DATA_STRUCTURE_FLAG, END_DATA_STRUCTURE_FLAG)) by (bit_vector);
    }

    proof fn lemma_parse_bounds(frames: Seq<FrameView>, pos: int) {
    }

    proof fn lemma_parse_of_encoded(v: AddressView, frames: Seq<FrameView>, pos: int) {
        broadcast use vstd::utf8::encode_utf8_valid_utf8, vstd::utf8::encode_utf8_decode_utf8;

        let all = spec_address_frames(v);
        assert(all.len() == 4);
        assert forall|i: int| 0 <= i < 4 implies frames[pos + i] == all[i] by {
            assert(frames.subrange(pos, pos + 4)[i] == frames[pos + i]);
        }
        assert(frames[pos + 1] == plain_frame(spec_u32_to_le_bytes(v.port), DEFAULT_FLAGS));
        vstd::bytes::lemma_auto_spec_u32_to_from_le_bytes();
        assert(frames[pos + 1].content.subrange(0, 4) =~= spec_u32_to_le_bytes(v.port));
        assert(frames[pos + 2] == plain_frame(encode_utf8(v.host), DEFAULT_FLAGS));
        assert(spec_parse_string(frames, pos + 2) == Some((v.host, pos + 3)));
    }

    fn encode_value(&self, message: &mut Message) {
        let begin = Frame::new(Vec::new(), BEGIN_DATA_STRUCTURE_FLAG);
        message.add(begin);
        let port_frame = Frame::new(u32_to_le_bytes(self.port), DEFAULT_FLAGS);
        message.add(port_frame);
        encode_string(message, self.host.clone());
        let end = Frame::new(Vec::new(), END_DATA_STRUCTURE_FLAG);
        message.add(end);
        proof {
            assert(message@.frames =~= old(message)@.frames + spec_address_frames(self@));
        }
    }

    fn decode_value(r: &mut FrameReader) -> (res: Result<Self, DecodeError>) {
        decode_address(r)
    }
}

// --- the replica-timestamp list ---

/// The bytes of one replica-timestamp record: the replica's UUID, then the
/// timestamp, little-endian.
pub open spec fn spec_replica_entry_bytes(e: ReplicaTimestampEntry) -> Seq<u8> {
    spec_uuid_to_bytes(e.key) + spec_i64_to_le_bytes(e.value)
}

/// The packed bytes of a replica-timestamp list: each record back-to-back.
pub open spec fn spec_replica_list_bytes(es: Seq<ReplicaTimestampEntry>) -> Seq<u8>
    decreases es.len(),
{
    if es.len() == 0 {
        Seq::empty()
    } else {
        spec_replica_entry_bytes(es[0]) + spec_replica_list_bytes(es.drop_first())
    }
}

/// Appending one record appends its bytes.
proof fn lemma_replica_list_bytes_push(es: Seq<ReplicaTimestampEntry>, e: ReplicaTimestampEntry)
    ensures
        spec_replica_list_bytes(es.push(e)) == spec_replica_list_bytes(es)
            + spec_replica_entry_bytes(e),
    decreases es.len(),
{
    if es.len() == 0 {
        assert(es.push(e).drop_first() =~= Seq::<ReplicaTimestampEntry>::empty());
        assert(es =~= Seq::<ReplicaTimestampEntry>::empty());
        assert(es.push(e)[0] == e);
        assert(spec_replica_list_bytes(Seq::<ReplicaTimestampEntry>::empty()) == Seq::<
            u8,
        >::empty());
        assert(spec_replica_list_bytes(es.push(e)) == spec_replica_entry_bytes(e) + Seq::<
            u8,
        >::empty());
        assert(spec_replica_list_bytes(es.push(e)) =~= spec_replica_list_bytes(es)
            + spec_replica_entry_bytes(e));
    } else {
        assert(es.push(e).drop_first() =~= es.drop_first().push(e));
        lemma_replica_list_bytes_push(es.drop_first(), e);
        assert(es.push(e)[0] == es[0]);
        assert(spec_replica_list_bytes(es.push(e)) =~= spec_replica_list_bytes(es)
            + spec_replica_entry_bytes(e));
    }
}

/// The packed bytes of a list occupy exactly one record size per entry.
pub proof fn lemma_replica_list_bytes_len(es: Seq<ReplicaTimestampEntry>)
    ensures
        spec_replica_list_bytes(es).len() == 25 * es.len(),
    decreases es.len(),
{
    vstd::bytes::lemma_auto_spec_u64_to_from_le_bytes();
    if es.len() > 0 {
        lemma_replica_list_bytes_len(es.drop_first());
    }
}

/// Appends one frame holding every record of the list packed back-to-back.
pub fn encode_replica_timestamp_list(message: &mut Message, entries: &Vec<ReplicaTimestampEntry>)
    ensures
        final(message)@ == (MessageView {
            frames: old(message)@.frames.push(
                plain_frame(spec_replica_list_bytes(entries@), DEFAULT_FLAGS),
            ),
            ..old(message)@
        }),
{
    let mut content: Vec<u8> = Vec::new();
    let n = entries.len();
    let mut i: usize = 0;
    proof {
        assert(content@ =~= spec_replica_list_bytes(entries@.take(0)));
    }
    while i < n
        invariant
            n == entries@.len(),
            i <= n,
            content@ == spec_replica_list_bytes(entries@.take(i as int)),
        decreases n - i,
    {
        let entry = entries[i];
        encode_uuid(&mut content, entry.key);
        write_i64_le(&mut content, entry.value);
        proof {
            assert(entries@.take(i + 1) =~= entries@.take(i as int).push(entries@[i as int]));
            lemma_replica_list_bytes_push(entries@.take(i as int), entries@[i as int]);
            assert(content@ =~= spec_replica_list_bytes(entries@.take(i + 1)));
        }
        i = i + 1;
    }
    proof {
        assert(entries@.take(n as int) =~= entries@);
    }
    let frame = Frame::new(content, DEFAULT_FLAGS);
    message.add(frame);
}

/// The records read out of packed bytes, starting at `off`, `count` of
/// them: each must carry a present (not-null) UUID.
pub open spec fn spec_read_replica_entries(bytes: Seq<u8>, off: int, count: nat) -> Option<
    Seq<ReplicaTimestampEntry>,
>
    decreases count,
{
    if count == 0 {
        Some(Seq::empty())
    } else if !(0 <= off && off + 25 <= bytes.len()) {
        None
    } else {
        match spec_parse_uuid(bytes, off) {
            Some((Some(key), p)) => {
                let value = spec_i64_of_u64(
                    vstd::bytes::spec_u64_from_le_bytes(bytes.subrange(off + 17, off + 25)),
                );
                match spec_read_replica_entries(bytes, off + 25, (count - 1) as nat) {
                    Some(rest) => Some(seq![ReplicaTimestampEntry { key, value }] + rest),
                    None => None,
                }
            },
            _ => None,
        }
    }
}

/// The replica-timestamp list read at `pos`: one frame whose content packs
/// `content.len() / 25` records; trailing bytes short of a whole record
/// are ignored.
pub open spec fn spec_parse_replica_list(frames: Seq<FrameView>, pos: int) -> Option<
    (Seq<ReplicaTimestampEntry>, int),
> {
    if !(0 <= pos < frames.len()) {
        None
    } else {
        match spec_read_replica_entries(
            frames[pos].content,
            0,
            (frames[pos].content.len() / 25) as nat,
        ) {
            Some(es) => Some((es, pos + 1)),
            None => None,
        }
    }
}

/// Reads a replica-timestamp list out of the next frame.
pub fn decode_replica_timestamp_list(r: &mut FrameReader) -> (res: Result<
    Vec<ReplicaTimestampEntry>,
    DecodeError,
>)
    requires
        old(r).wf(),
    ensures
        final(r).frames@ == old(r).frames@,
        final(r).wf(),
        match spec_parse_replica_list(old(r).frame_seq(), old(r).pos as int) {
            Some((es, p)) => res matches Ok(v) && v@ == es && final(r).pos == p,
            None => res is Err && old(r).pos <= final(r).pos,
        },
{
    let frame = match r.next_frame() {
        Ok(f) => f,
        Err(e) => {
            return Err(e);
        },
    };
    let mut frame = frame;
    let content = frame.content();
    let ghost content_view = content@;
    let mut reader = ByteReader::new(content);
    let item_count = reader.remaining() / 25;
    let mut entries: Vec<ReplicaTimestampEntry> = Vec::new();
    let mut i: usize = 0;
    proof {
        assert(entries@ =~= Seq::<ReplicaTimestampEntry>::empty());
    }
    while i < item_count
        invariant
            r.wf(),
            r.frames@ == old(r).frames@,
            old(r).pos < old(r).frame_seq().len(),
            r.pos == old(r).pos + 1,
            content_view == old(r).frame_seq()[old(r).pos as int].content,
            reader.wf(),
            reader.bytes@ == content_view,
            i <= item_count,
            item_count == content_view.len() / 25,
            reader.pos == 25 * i,
            entries@.len() == i,
            (match spec_read_replica_entries(
                content_view,
                reader.pos as int,
                (item_count - i) as nat,
            ) {
                Some(rest) => spec_read_replica_entries(content_view, 0, item_count as nat)
                    == Some(entries@ + rest),
                None => spec_read_replica_entries(content_view, 0, item_count as nat) is None,
            }),
        decreases item_count - i,
    {
        proof {
            assert(25 * (i + 1) <= 25 * (content_view.len() as int / 25));
            assert(25 * (content_view.len() as int / 25) <= content_view.len()) by (nonlinear_arith);
        }
        let ghost off = reader.pos as int;
        let key = match decode_uuid(&mut reader) {
            Ok(Some(k)) => k,
            Ok(None) => {
                return Err(DecodeError::NullValue);
            },
            Err(e) => {
                return Err(e);
            },
        };
        let value = match reader.read_i64_le() {
            Ok(v) => v,
            Err(e) => {
                return Err(e);
            },
        };
        let ghost entries_before = entries@;
        entries.push(ReplicaTimestampEntry { key, value });
        proof {
            assert(content_view.subrange(off + 17, off + 25) =~= content_view.subrange(
                off + 17,
                off + 17 + 8,
            ));
            if let Some(rest) = spec_read_replica_entries(
                content_view,
                reader.pos as int,
                (item_count - i - 1) as nat,
            ) {
                assert(entries_before + (seq![ReplicaTimestampEntry { key, value }] + rest)
                    =~= entries@ + rest);
            }
        }
        i = i + 1;
    }
    proof {
        assert(spec_read_replica_entries(content_view, reader.pos as int, 0) == Some(
            Seq::<ReplicaTimestampEntry>::empty(),
        ));
        assert(entries@ + Seq::<ReplicaTimestampEntry>::empty() =~= entries@);
    }
    Ok(entries)
}

/// Round trip for the replica-timestamp list at the frame level: parsing
/// at a frame holding the packed bytes of a list yields the same records
/// and consumes exactly that frame.
pub proof fn lemma_replica_list_frame_round_trip(
    es: Seq<ReplicaTimestampEntry>,
    frames: Seq<FrameView>,
    pos: int,
)
    requires
        0 <= pos < frames.len(),
        frames[pos] == plain_frame(spec_replica_list_bytes(es), DEFAULT_FLAGS),
    ensures
        spec_parse_replica_list(frames, pos) == Some((es, pos + 1)),
{
    lemma_replica_list_bytes_len(es);
    vstd::arithmetic::div_mod::lemma_div_multiples_vanish(es.len() as int, 25);
    assert(spec_replica_list_bytes(es).len() as int / 25 == es.len());
    lemma_replica_list_round_trip(es);
}

/// Round trip for the replica-timestamp list: reading the packed bytes of
/// a list yields the same records.
pub proof fn lemma_replica_list_round_trip(es: Seq<ReplicaTimestampEntry>)
    ensures
        spec_read_replica_entries(spec_replica_list_bytes(es), 0, es.len()) == Some(es),
{
    let all = spec_replica_list_bytes(es);
    assert(all.subrange(0, all.len() as int) =~= all);
    lemma_read_replica_entries_of_encoded(es, all, 0);
}

/// Reading records where a list was packed yields those records.
proof fn lemma_read_replica_entries_of_encoded(
    es: Seq<ReplicaTimestampEntry>,
    bytes: Seq<u8>,
    off: int,
)
    requires
        0 <= off,
        off + spec_replica_list_bytes(es).len() <= bytes.len(),
        bytes.subrange(off, off + spec_replica_list_bytes(es).len()) == spec_replica_list_bytes(
            es,
        ),
    ensures
        spec_read_replica_entries(bytes, off, es.len()) == Some(es),
    decreases es.len(),
{
    vstd::bytes::lemma_auto_spec_u64_to_from_le_bytes();
    lemma_replica_list_bytes_len(es);
    let all = spec_replica_list_bytes(es);
    assert forall|i: int| off <= i < off + all.len() implies bytes[i] == all[i - off] by {
        assert(bytes.subrange(off, off + all.len())[i - off] == bytes[i]);
    }
    if es.len() == 0 {
        assert(Seq::<ReplicaTimestampEntry>::empty() =~= es);
    } else {
        let head = spec_replica_entry_bytes(es[0]);
        let rest = spec_replica_list_bytes(es.drop_first());
        assert(all == head + rest);
        lemma_replica_list_bytes_len(es.drop_first());
        assert forall|i: int| off <= i < off + 25 implies bytes[i] == head[i - off] by {
            assert(all[i - off] == head[i - off]);
        }
        assert(bytes[off] == spec_uuid_to_bytes(es[0].key)[0]);
        assert(bytes[off] == 0);
        assert(bytes.subrange(off + 1, off + 9) =~= spec_uuid_to_bytes(es[0].key).subrange(1, 9));
        assert(spec_uuid_to_bytes(es[0].key).subrange(1, 9)
            =~= vstd::bytes::spec_u64_to_le_bytes(es[0].key.msb));
        assert(bytes.subrange(off + 9, off + 17) =~= spec_uuid_to_bytes(es[0].key).subrange(
            9,
            17,
        ));
        assert(spec_uuid_to_bytes(es[0].key).subrange(9, 17)
            =~= vstd::bytes::spec_u64_to_le_bytes(es[0].key.lsb));
        assert(spec_parse_uuid(bytes, off) == Some((Some(es[0].key), off + 17)));
        assert(bytes.subrange(off + 17, off + 25) =~= spec_i64_to_le_bytes(es[0].value)) by {
            assert forall|i: int| 0 <= i < 8 implies bytes.subrange(off + 17, off + 25)[i]
                == spec_i64_to_le_bytes(es[0].value)[i] by {
                assert(bytes.subrange(off + 17, off + 25)[i] == bytes[off + 17 + i]);
                assert(head[17 + i] == spec_i64_to_le_bytes(es[0].value)[i]);
            }
        }
        crate::codec::lemma_i64_u64_round_trip(es[0].value);
        assert(bytes.subrange(off + 25, off + 25 + rest.len()) =~= rest) by {
            assert forall|i: int| 0 <= i < rest.len() implies bytes.subrange(
                off + 25,
                off + 25 + rest.len(),
            )[i] == rest[i] by {
                assert(bytes.subrange(off + 25, off + 25 + rest.len())[i] == bytes[off + 25 + i]);
                assert(all[25 + i] == rest[i]);
            }
        }
        lemma_read_replica_entries_of_encoded(es.drop_first(), bytes, off + 25);
        assert(seq![es[0]] + es.drop_first() =~= es);
    }
}

} // verus!
