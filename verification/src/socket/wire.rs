//! Requests and responses as bytes. Each is one byte on the wire: the place
//! of its message, or of its status, in the order in which they are declared.
use crate::socket::error::BytesError;
use crate::socket::request::{Message, SocketRequest};
use crate::socket::response::{SocketResponse, Status};
use vstd::prelude::*;

verus! {

/// The byte that stands for `message`.
pub open spec fn message_byte(message: Message) -> u8 {
    match message {
        Message::Break => 0,
        Message::Stop => 1,
        Message::Forward => 2,
        Message::Unknown => 3,
    }
}

/// The message that `byte` stands for; a byte that stands for none is read
/// as `Unknown`.
pub open spec fn byte_message(byte: u8) -> Message {
    if byte == 0 {
        Message::Break
    } else if byte == 1 {
        Message::Stop
    } else if byte == 2 {
        Message::Forward
    } else {
        Message::Unknown
    }
}

/// The byte that stands for `status`.
pub open spec fn status_byte(status: Status) -> u8 {
    match status {
        Status::Accepted => 0,
        Status::Rejected => 1,
    }
}

/// The status that `byte` stands for; a byte that stands for none is read as
/// `Rejected`.
pub open spec fn byte_status(byte: u8) -> Status {
    if byte == 0 {
        Status::Accepted
    } else {
        Status::Rejected
    }
}

/// Number of bytes that a request takes on the wire.
pub const REQUEST_BYTES: usize = 1;

/// Number of bytes that a response takes on the wire.
pub const RESPONSE_BYTES: usize = 1;

impl SocketRequest {
    /// The bytes to send for this request.
    pub fn to_bytes(&self) -> (bytes: Vec<u8>)
        ensures
            bytes@ == seq![message_byte(self.message())],
    {
        let byte: u8 = match self.msg() {
            Message::Break => 0,
            Message::Stop => 1,
            Message::Forward => 2,
            Message::Unknown => 3,
        };
        let mut bytes: Vec<u8> = Vec::new();
        bytes.push(byte);
        assert(bytes@ =~= seq![byte]);
        bytes
    }

    /// The request that `bytes` hold. Anything but exactly one byte is an
    /// `InvalidLength`.
    pub fn from_bytes(bytes: &[u8]) -> (request: Result<SocketRequest, BytesError>)
        ensures
            bytes@.len() == 1 ==> request is Ok && request->Ok_0.message() == byte_message(
                bytes@[0],
            ),
            bytes@.len() != 1 ==> request == Err::<SocketRequest, BytesError>(
                BytesError::InvalidLength,
            ),
    {
        if bytes.len() != REQUEST_BYTES {
            return Err(BytesError::InvalidLength);
        }
        let message = match bytes[0] {
            0 => Message::Break,
            1 => Message::Stop,
            2 => Message::Forward,
            _ => Message::Unknown,
        };
        Ok(SocketRequest::new(message))
    }
}

impl SocketResponse {
    /// The bytes to send for this response.
    pub fn to_bytes(&self) -> (bytes: Vec<u8>)
        ensures
            bytes@ == seq![status_byte(self.outcome())],
    {
        let byte: u8 = match self.status() {
            Status::Accepted => 0,
            Status::Rejected => 1,
        };
        let mut bytes: Vec<u8> = Vec::new();
        bytes.push(byte);
        assert(bytes@ =~= seq![byte]);
        bytes
    }

    /// The response that `bytes` hold. Anything but exactly one byte is an
    /// `InvalidLength`.
    pub fn from_bytes(bytes: &[u8]) -> (response: Result<SocketResponse, BytesError>)
        ensures
            bytes@.len() == 1 ==> response is Ok && response->Ok_0.outcome() == byte_status(
                bytes@[0],
            ),
            bytes@.len() != 1 ==> response == Err::<SocketResponse, BytesError>(
                BytesError::InvalidLength,
            ),
    {
        if bytes.len() != RESPONSE_BYTES {
            return Err(BytesError::InvalidLength);
        }
        let status = match bytes[0] {
            0 => Status::Accepted,
            _ => Status::Rejected,
        };
        Ok(SocketResponse::new(status))
    }
}

/// A request read back from its own bytes is the request.
pub proof fn lemma_request_round_trip(message: Message)
    ensures
        byte_message(message_byte(message)) == message,
{
}

/// A response read back from its own bytes is the response.
pub proof fn lemma_response_round_trip(status: Status)
    ensures
        byte_status(status_byte(status)) == status,
{
}

} // verus!
