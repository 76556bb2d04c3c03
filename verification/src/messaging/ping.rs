//! The ping request/response pair: the simplest typed operation, with no
//! payload fields beyond the fixed header.

use vstd::prelude::*;
use crate::codec::spec_i32_to_le_bytes;
use crate::codec::write_i32_le;
use crate::messaging::error::{spec_placeholder_exception, EXCEPTION_TYPE};
use crate::remote::message::{Frame, FrameView, Message, MessageView};
use crate::{HazelcastClientError, TryFrom};

verus! {

pub const PING_REQUEST_TYPE: u32 = 0x000B00;

pub const PING_RESPONSE_TYPE: u32 = 0x000B01;

#[derive(Clone, Copy, PartialEq, Eq, Structural, Debug)]
pub struct PingRequest {}

impl PingRequest {
    pub fn new() -> (r: PingRequest)
        ensures
            r == (PingRequest {  }),
    {
        PingRequest {}
    }
}

/// Builds a ping request message: the initial frame gains the fixed
/// partition-id placeholder and nothing else.
pub fn encode_request(id: u64, request: PingRequest, initial_frame: Frame) -> (r: Message)
    ensures
        r@ == (MessageView {
            id,
            message_type: PING_REQUEST_TYPE,
            frames: seq![
                (FrameView {
                    content: initial_frame@.content + spec_i32_to_le_bytes(-1i32),
                    ..initial_frame@
                }),
            ],
        }),
{
    let _ = request;
    let mut initial_frame = initial_frame;
    let mut fields: Vec<u8> = Vec::new();
    write_i32_le(&mut fields, -1);
    proof {
        assert(fields@ =~= spec_i32_to_le_bytes(-1i32));
    }
    initial_frame.append_content(fields);
    Message::new(id, PING_REQUEST_TYPE, initial_frame)
}

#[derive(Clone, Copy, PartialEq, Eq, Structural, Debug)]
pub struct PingResponse {}

/// Decodes a ping response, which carries no fields.
pub fn decode_response(message: Message) -> (r: PingResponse)
    ensures
        r == (PingResponse {  }),
{
    let _ = message;
    PingResponse {}
}

impl TryFrom<PingResponse> for Message {
    type Error = HazelcastClientError;

    open spec fn conversion_spec(&self, r: Result<PingResponse, HazelcastClientError>) -> bool {
        if self@.message_type == PING_RESPONSE_TYPE {
            r == Result::<PingResponse, HazelcastClientError>::Ok(PingResponse {  })
        } else if self@.message_type == EXCEPTION_TYPE {
            r matches Err(HazelcastClientError::ServerFailure(e)) && spec_placeholder_exception(e)
        } else {
            r == Result::<PingResponse, HazelcastClientError>::Err(
                HazelcastClientError::UnexpectedType {
                    expected: PING_RESPONSE_TYPE,
                    actual: self@.message_type,
                },
            )
        }
    }

    fn try_from(self) -> (r: Result<PingResponse, HazelcastClientError>) {
        let actual = self.message_type();
        if actual == PING_RESPONSE_TYPE {
            Ok(decode_response(self))
        } else if actual == EXCEPTION_TYPE {
            Err(
                HazelcastClientError::ServerFailure(
                    crate::messaging::error::decode_response(self),
                ),
            )
        } else {
            Err(
                HazelcastClientError::UnexpectedType { expected: PING_RESPONSE_TYPE, actual },
            )
        }
    }
}


/// A message whose type equals the generic failure type, arriving where
/// this operation's response was expected, converts to a server-failure
/// result carried back to the caller, never to a typed value and never to
/// a crash.
pub proof fn lemma_failure_type_yields_server_failure(
    m: Message,
    r: Result<PingResponse, HazelcastClientError>,
)
    requires
        m@.message_type == EXCEPTION_TYPE,
        m.conversion_spec(r),
    ensures
        r matches Err(HazelcastClientError::ServerFailure(e)) && spec_placeholder_exception(e),
{
}

} // verus!
