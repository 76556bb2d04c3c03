//! The replica-count operation: request by counter name, response carrying
//! how many replicas hold the counter.

use vstd::prelude::*;
use vstd::bytes::spec_u32_from_le_bytes;
use crate::codec::util::{encode_string, spec_string_frames};
use crate::codec::{spec_i32_of_u32, spec_i32_to_le_bytes, write_i32_le, ByteReader};
use crate::messaging::error::{spec_placeholder_exception, DecodeError, EXCEPTION_TYPE};
use crate::remote::message::{Frame, FrameReader, FrameView, Message, MessageView};
use crate::{HazelcastClientError, TryFrom};

verus! {

pub const REQUEST_TYPE: u32 = 0x1D0300;

pub const RESPONSE_TYPE: u32 = 0x1D0301;

/// A request for the number of replicas holding the counter.
#[derive(PartialEq, Eq, Debug)]
pub struct PnCounterGetReplicaCountRequest {
    pub name: String,
}

impl PnCounterGetReplicaCountRequest {
    pub fn new(name: String) -> (r: PnCounterGetReplicaCountRequest)
        ensures
            r.name == name,
    {
        PnCounterGetReplicaCountRequest { name }
    }
}

/// Builds a replica-count request message: the partition-id placeholder in
/// the initial frame, then the counter name.
pub fn encode_request(
    id: u64,
    request: PnCounterGetReplicaCountRequest,
    initial_frame: Frame,
) -> (r: Message)
    ensures
        r@ == (MessageView {
            id,
            message_type: REQUEST_TYPE,
            frames: seq![
                (FrameView {
                    content: initial_frame@.content + spec_i32_to_le_bytes(-1i32),
                    ..initial_frame@
                }),
            ] + spec_string_frames(request.name@),
        }),
{
    let PnCounterGetReplicaCountRequest { name } = request;
    let mut initial_frame = initial_frame;
    let ghost init0 = initial_frame@;
    let mut fields: Vec<u8> = Vec::new();
    write_i32_le(&mut fields, -1);
    proof {
        assert(fields@ =~= spec_i32_to_le_bytes(-1i32));
    }
    initial_frame.append_content(fields);
    let mut message = Message::new(id, REQUEST_TYPE, initial_frame);
    encode_string(&mut message, name);
    proof {
        assert(message@.frames =~~= seq![
            (FrameView { content: init0.content + spec_i32_to_le_bytes(-1i32), ..init0 }),
        ] + spec_string_frames(name@));
    }
    message
}

/// A replica-count response.
#[derive(Clone, Copy, PartialEq, Eq, Structural, Debug)]
pub struct PnCounterGetReplicaCountResponse {
    pub count: i32,
}

impl PnCounterGetReplicaCountResponse {
    pub fn new(count: i32) -> (r: PnCounterGetReplicaCountResponse)
        ensures
            r.count == count,
    {
        PnCounterGetReplicaCountResponse { count }
    }

    pub fn count(&self) -> (r: i32)
        ensures
            r == self.count,
    {
        self.count
    }
}

/// The count read from a replica-count response: one 32-bit field after
/// the fixed header of the initial frame.
pub open spec fn spec_decode_replica_count_response(m: MessageView) -> Option<i32> {
    if m.frames.len() < 1 {
        None
    } else {
        let c = m.frames[0].content;
        if c.len() < 17 {
            None
        } else {
            Some(spec_i32_of_u32(spec_u32_from_le_bytes(c.subrange(13, 17))))
        }
    }
}

/// Decodes a replica-count response.
pub fn decode_response(message: Message) -> (res: Result<
    PnCounterGetReplicaCountResponse,
    DecodeError,
>)
    ensures
        match spec_decode_replica_count_response(message@) {
            Some(count) => res matches Ok(x) && x.count == count,
            None => res is Err,
        },
{
    let mut r = FrameReader::new(message);
    let initial = match r.next_frame() {
        Ok(f) => f,
        Err(e) => {
            return Err(e);
        },
    };
    let mut initial = initial;
    let mut content = ByteReader::new(initial.content());
    match content.advance(13) {
        Ok(_) => {},
        Err(e) => {
            return Err(e);
        },
    }
    let count = match content.read_i32_le() {
        Ok(v) => v,
        Err(e) => {
            return Err(e);
        },
    };
    Ok(PnCounterGetReplicaCountResponse::new(count))
}

impl TryFrom<PnCounterGetReplicaCountResponse> for Message {
    type Error = HazelcastClientError;

    open spec fn conversion_spec(
        &self,
        r: Result<PnCounterGetReplicaCountResponse, HazelcastClientError>,
    ) -> bool {
        if self@.message_type == RESPONSE_TYPE {
            match spec_decode_replica_count_response(self@) {
                Some(count) => r matches Ok(x) && x.count == count,
                None => r matches Err(HazelcastClientError::Decode(_)),
            }
        } else if self@.message_type == EXCEPTION_TYPE {
            r matches Err(HazelcastClientError::ServerFailure(e)) && spec_placeholder_exception(e)
        } else {
            r == Result::<PnCounterGetReplicaCountResponse, HazelcastClientError>::Err(
                HazelcastClientError::UnexpectedType {
                    expected: RESPONSE_TYPE,
                    actual: self@.message_type,
                },
            )
        }
    }

    fn try_from(self) -> (r: Result<PnCounterGetReplicaCountResponse, HazelcastClientError>) {
        let actual = self.message_type();
        if actual == RESPONSE_TYPE {
            match decode_response(self) {
                Ok(x) => Ok(x),
                Err(e) => Err(HazelcastClientError::Decode(e)),
            }
        } else if actual == EXCEPTION_TYPE {
            Err(
                HazelcastClientError::ServerFailure(
                    crate::messaging::error::decode_response(self),
                ),
            )
        } else {
            Err(
                HazelcastClientError::UnexpectedType { expected: RESPONSE_TYPE, actual },
            )
        }
    }
}


/// A message whose type equals the generic failure type, arriving where
/// this operation's response was expected, converts to a server-failure
/// result carried back to the caller, never to a typed value and never to
/// a crash.
pub proof fn lemma_failure_type_yields_server_failure(
    m: Message,
    r: Result<PnCounterGetReplicaCountResponse, HazelcastClientError>,
)
    requires
        m@.message_type == EXCEPTION_TYPE,
        m.conversion_spec(r),
    ensures
        r matches Err(HazelcastClientError::ServerFailure(e)) && spec_placeholder_exception(e),
{
}

} // verus!
