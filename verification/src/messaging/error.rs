//! Decode failures and the generic server-failure payload.

use vstd::prelude::*;
use crate::remote::message::Message;

verus! {

/// Message type code of the generic failure envelope a member sends when an
/// operation fails server-side.
pub const EXCEPTION_TYPE: u32 = 0;

/// A malformed-bytes failure local to one decode call.
///
/// `MissingFrame` marks a message with fewer frames than the operation's
/// field order demands, `Truncated` a fixed-width field that runs past the
/// end of its buffer, `BadFrameLength` a wire frame whose length field is
/// shorter than its own header or longer than the bytes at hand,
/// `InvalidUtf8` a string field that is not UTF-8, `NullValue` an absent
/// value in a position where the protocol demands one, and
/// `UnknownEnumValue` a discriminant outside the known range.
#[derive(Clone, Copy, PartialEq, Eq, Debug)]
pub enum DecodeError {
    MissingFrame,
    Truncated,
    BadFrameLength,
    InvalidUtf8,
    NullValue,
    UnknownEnumValue,
}

/// One entry of a server-side stack trace carried by a failure payload.
#[derive(PartialEq, Eq, Debug)]
pub struct StackTraceEntry {
    pub declaring_class: String,
    pub method_name: String,
    pub file_name: Option<String>,
    pub line_number: u32,
}

/// The generic failure payload: what the peer reports when an operation
/// fails on the server rather than on the wire.
#[derive(PartialEq, Eq, Debug)]
pub struct Exception {
    pub code: i32,
    pub class_name: String,
    pub message: Option<String>,
    pub stack_trace: Vec<StackTraceEntry>,
    pub cause_error_code: u32,
    pub cause_class_name: Option<String>,
}

/// True of the fixed placeholder failure that stands in for a server
/// failure whose payload schema is outside this crate's scope.
pub open spec fn spec_placeholder_exception(e: Exception) -> bool {
    &&& e.code == -1
    &&& e.class_name@ == Seq::<char>::empty()
    &&& e.message is None
    &&& e.stack_trace@ == Seq::<StackTraceEntry>::empty()
    &&& e.cause_error_code == 0
    &&& e.cause_class_name is None
}

/// Decodes a failure message. The payload is not interpreted (its schema
/// is outside this crate's scope): the result is the placeholder failure.
pub fn decode_response(message: Message) -> (r: Exception)
    ensures
        spec_placeholder_exception(r),
{
    let _ = message;
    Exception {
        code: -1,
        class_name: String::new(),
        message: None,
        stack_trace: Vec::new(),
        cause_error_code: 0,
        cause_class_name: None,
    }
}

impl Exception {
    /// Reads a failure from the raw payload of a failure frame.
    ///
    /// The field schema of the failure payload is outside this crate's
    /// scope, so the bytes are not interpreted: the result is the fixed
    /// placeholder failure, whatever the payload holds.
    pub fn read_from(payload: Vec<u8>) -> (r: Exception)
        ensures
            spec_placeholder_exception(r),
    {
        let _ = payload;
        Exception {
            code: -1,
            class_name: String::new(),
            message: None,
            stack_trace: Vec::new(),
            cause_error_code: 0,
            cause_class_name: None,
        }
    }
}

} // verus!
