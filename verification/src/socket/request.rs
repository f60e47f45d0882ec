//! Requests: what a client asks of the server.
use vstd::prelude::*;
use vstd::string::StringExecFns;

verus! {

/// What a request asks for.
#[derive(Debug, Clone, Copy, PartialEq, Eq, Structural)]
pub enum Message {
    /// Shut the server's socket down.
    Break,
    /// Close this connection.
    Stop,
    Forward,
    Unknown,
}

/// A request as it is sent over a connection.
#[derive(Debug, Clone, Copy, PartialEq, Eq, Structural)]
pub struct SocketRequest {
    msg: Message,
}

impl Message {
    /// The message that the command word `command` asks for: `break`, `stop`
    /// and `forward` name theirs, every other word is `Unknown`.
    pub open spec fn of_command(command: Seq<char>) -> Message {
        if command == "break"@ {
            Message::Break
        } else if command == "stop"@ {
            Message::Stop
        } else if command == "forward"@ {
            Message::Forward
        } else {
            Message::Unknown
        }
    }

    /// Reads a command word as given on the command line.
    pub fn from_command(command: &str) -> (message: Message)
        ensures
            message == Message::of_command(command@),
    {
        let word = String::from_str(command);
        if word == String::from_str("break") {
            Message::Break
        } else if word == String::from_str("stop") {
            Message::Stop
        } else if word == String::from_str("forward") {
            Message::Forward
        } else {
            Message::Unknown
        }
    }
}

impl SocketRequest {
    /// What the request asks for.
    pub closed spec fn message(&self) -> Message {
        self.msg
    }

    pub fn new(msg: Message) -> (request: Self)
        ensures
            request.message() == msg,
    {
        Self { msg }
    }

    /// What the request asks for.
    pub fn msg(&self) -> (msg: Message)
        ensures
            msg == self.message(),
    {
        self.msg
    }

    /// Whether the request asks the server to shut its socket down.
    pub fn is_break(&self) -> (is_break: bool)
        ensures
            is_break == (self.message() == Message::Break),
    {
        matches!(self.msg, Message::Break)
    }

    /// Whether the request asks to close the connection.
    pub fn is_stop(&self) -> (is_stop: bool)
        ensures
            is_stop == (self.message() == Message::Stop),
    {
        matches!(self.msg, Message::Stop)
    }
}

} // verus!
