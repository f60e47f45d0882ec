//! The rules of a connection: how much must have been read for a message to
//! be whole, and what the server does with a request.
use crate::socket::error::{SocketError, SocketErrorKind};
use crate::socket::request::{Message, SocketRequest};
use crate::socket::response::{SocketResponse, Status};
use crate::socket::wire::{byte_message, byte_status};
use vstd::prelude::*;
use vstd::string::StringExecFns;

verus! {

/// Room that a read buffer has beyond the message it is to take.
pub const BUFFER_PADDING: usize = 4;

/// Size of the buffer into which a request is read.
pub const REQUEST_SIZE: usize = 5;

/// Size of the buffer into which a response is read.
pub const RESPONSE_SIZE: usize = 5;

/// What the server does on a request.
#[derive(Debug, Clone, Copy, PartialEq, Eq, Structural)]
pub struct Reaction {
    /// Whether to tell the server to shut its socket down.
    pub terminate: bool,
    /// What to answer; `None` means that the connection is closed without
    /// an answer.
    pub reply: Option<SocketResponse>,
}

/// The bytes of a message, taken from the `buffer` into which `read` bytes
/// were read. The message is whole when it fills the buffer up to the padding;
/// otherwise the read is an error of the stream. A message of no bytes at all
/// is an empty stream.
pub fn read_stream(buffer: &[u8], read: usize) -> (message: Result<Vec<u8>, SocketError>)
    ensures
        read + BUFFER_PADDING == buffer@.len() && read != 0 ==> message is Ok && message->Ok_0@
            == buffer@.take(read as int),
        read + BUFFER_PADDING != buffer@.len() ==> message is Err && message->Err_0.kind_of()
            == SocketErrorKind::SocketStreamIO && message->Err_0.message_of()
            == "Invalid bytes size read from stream"@ && message->Err_0.location() is None,
        read + BUFFER_PADDING == buffer@.len() && read == 0 ==> message is Err
            && message->Err_0.kind_of() == SocketErrorKind::SocketStreamEmpty
            && message->Err_0.message_of() == "Stream is empty"@ && message->Err_0.location()
            is None,
{
    let size = buffer.len();
    if read > usize::MAX - BUFFER_PADDING || read + BUFFER_PADDING != size {
        return Err(
            SocketError::new(
                SocketErrorKind::SocketStreamIO,
                String::from_str("Invalid bytes size read from stream"),
            ),
        );
    }
    if read == 0 {
        return Err(
            SocketError::new(
                SocketErrorKind::SocketStreamEmpty,
                String::from_str("Stream is empty"),
            ),
        );
    }
    let mut message: Vec<u8> = Vec::new();
    let mut place: usize = 0;
    while place < read
        invariant
            place <= read <= buffer@.len(),
            message@ == buffer@.take(place as int),
        decreases read - place,
    {
        message.push(buffer[place]);
        assert(message@ =~= buffer@.take(place + 1));
        place = place + 1;
    }
    Ok(message)
}

/// The request in the `buffer` into which `read` bytes were read.
pub fn recv_msg(buffer: &[u8], read: usize) -> (request: Result<SocketRequest, SocketError>)
    ensures
        read == 1 && buffer@.len() == 1 + BUFFER_PADDING ==> request is Ok
            && request->Ok_0.message() == byte_message(buffer@[0]),
        read + BUFFER_PADDING == buffer@.len() && read > 1 ==> request is Err
            && request->Err_0.kind_of() == SocketErrorKind::SocketStreamIO
            && request->Err_0.message_of() == "Invalid byte liength"@,
        read == 0 && buffer@.len() == BUFFER_PADDING ==> request is Err
            && request->Err_0.kind_of() == SocketErrorKind::SocketStreamEmpty
            && request->Err_0.message_of() == "Stream is empty"@,
        read + BUFFER_PADDING != buffer@.len() ==> request is Err && request->Err_0.kind_of()
            == SocketErrorKind::SocketStreamIO && request->Err_0.message_of()
            == "Invalid bytes size read from stream"@,
{
    match read_stream(buffer, read) {
        Ok(bytes) => match SocketRequest::from_bytes(bytes.as_slice()) {
            Ok(request) => Ok(request),
            Err(error) => Err(SocketError::from(error)),
        },
        Err(error) => Err(error),
    }
}

/// The response in the `buffer` into which `read` bytes were read.
pub fn response(buffer: &[u8], read: usize) -> (response: Result<SocketResponse, SocketError>)
    ensures
        read == 1 && buffer@.len() == 1 + BUFFER_PADDING ==> response is Ok
            && response->Ok_0.outcome() == byte_status(buffer@[0]),
        read + BUFFER_PADDING == buffer@.len() && read > 1 ==> response is Err
            && response->Err_0.kind_of() == SocketErrorKind::SocketStreamIO
            && response->Err_0.message_of() == "Invalid byte liength"@,
        read == 0 && buffer@.len() == BUFFER_PADDING ==> response is Err
            && response->Err_0.kind_of() == SocketErrorKind::SocketStreamEmpty
            && response->Err_0.message_of() == "Stream is empty"@,
        read + BUFFER_PADDING != buffer@.len() ==> response is Err && response->Err_0.kind_of()
            == SocketErrorKind::SocketStreamIO && response->Err_0.message_of()
            == "Invalid bytes size read from stream"@,
{
    match read_stream(buffer, read) {
        Ok(bytes) => match SocketResponse::from_bytes(bytes.as_slice()) {
            Ok(response) => Ok(response),
            Err(error) => Err(SocketError::from(error)),
        },
        Err(error) => Err(error),
    }
}

/// What the server does on `request`: a `Break` has it shut its socket down,
/// a `Stop` closes the connection without an answer, and everything that is
/// no `Stop` is answered with `Accepted`.
pub fn connection_handler(request: &SocketRequest) -> (reaction: Reaction)
    ensures
        reaction.terminate == (request.message() == Message::Break),
        request.message() == Message::Stop ==> reaction.reply is None,
        request.message() != Message::Stop ==> reaction.reply is Some
            && reaction.reply->Some_0.outcome() == Status::Accepted,
{
    let terminate = request.is_break();
    if request.is_stop() {
        Reaction { terminate, reply: None }
    } else {
        Reaction { terminate, reply: Some(SocketResponse::new(Status::Accepted)) }
    }
}

} // verus!
