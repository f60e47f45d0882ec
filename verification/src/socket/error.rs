//! The errors of the exchange over a socket.
use crate::socket::text::decimal;
use vstd::prelude::*;
use vstd::std_specs::convert::FromSpecImpl;
use vstd::string::StringExecFns;

verus! {

/// The file, line and column at which an error was noticed.
#[derive(Debug, Clone, Copy)]
pub struct ErrorWhere {
    line: u32,
    column: u32,
    file: &'static str,
}

/// What went wrong.
#[derive(Debug, Clone, Copy, PartialEq, Eq, Structural)]
pub enum SocketErrorKind {
    SocketBind,
    SocketTermination,
    SocketConnect,
    SocketStreamIO,
    SocketStreamEmpty,
    SocketConnectionMissingListener,
    SocketAddressInUse,
    SocketInvalidPath,
    SocketConnectionClosed,
    Other,
}

/// Why bytes could not be read as a request or a response.
#[derive(Debug, Clone, Copy, PartialEq, Eq, Structural)]
pub enum BytesError {
    InvalidLength,
}

/// The kinds of input and output error that the exchange tells apart.
#[derive(Debug, Clone, Copy, PartialEq, Eq, Structural)]
pub enum IoKind {
    Other,
    InvalidData,
    AlreadyExists,
    ConnectionAborted,
    NotFound,
    PermissionDenied,
    Interrupted,
    AddrInUse,
    BrokenPipe,
    /// Any kind that the exchange does not tell apart from the rest.
    Unlisted,
}

/// An error of the exchange: its kind, a message, and the place at which it
/// was noticed, where that is known.
#[derive(Debug)]
pub struct SocketError {
    pub error_location: Option<ErrorWhere>,
    kind: SocketErrorKind,
    message: String,
}

impl ErrorWhere {
    pub closed spec fn line_no(&self) -> u32 {
        self.line
    }

    pub closed spec fn column_no(&self) -> u32 {
        self.column
    }

    pub closed spec fn file_name(&self) -> Seq<char> {
        self.file@
    }

    pub fn new(line: u32, column: u32, file: &'static str) -> (place: Self)
        ensures
            place.line_no() == line,
            place.column_no() == column,
            place.file_name() == file@,
    {
        Self { column, line, file }
    }

    /// The place written as file, line and column with colons between.
    pub open spec fn text(&self) -> Seq<char> {
        self.file_name() + seq![':'] + crate::socket::text::decimal_digits(self.line_no() as nat)
            + seq![':'] + crate::socket::text::decimal_digits(self.column_no() as nat)
    }

    /// The place written as file, line and column with colons between.
    pub fn to_text(&self) -> (text: String)
        ensures
            text@ == self.text(),
    {
        proof {
            reveal_strlit(":");
            assert(":"@ =~= seq![':']);
        }
        let mut text = String::from_str(self.file);
        text.append(":");
        text.append(decimal(self.line).as_str());
        text.append(":");
        text.append(decimal(self.column).as_str());
        text
    }
}

impl SocketErrorKind {
    /// The name of the kind.
    pub open spec fn name(self) -> Seq<char> {
        match self {
            SocketErrorKind::SocketAddressInUse => "SocketAddressInUse"@,
            SocketErrorKind::Other => "Other"@,
            SocketErrorKind::SocketConnectionClosed => "SocketConnectionClosed"@,
            SocketErrorKind::SocketBind => "SocketBind"@,
            SocketErrorKind::SocketConnect => "SocketConnect"@,
            SocketErrorKind::SocketConnectionMissingListener => "SocketConnectionMissingListener"@,
            SocketErrorKind::SocketStreamEmpty => "SocketStreamEmpty"@,
            SocketErrorKind::SocketStreamIO => "SocketStreamIO"@,
            SocketErrorKind::SocketTermination => "SocketTermination"@,
            SocketErrorKind::SocketInvalidPath => "SocketInvalidPath"@,
        }
    }

    /// The name of the kind.
    pub fn to_text(&self) -> (tag: &'static str)
        ensures
            tag@ == self.name(),
    {
        match self {
            Self::SocketAddressInUse => "SocketAddressInUse",
            Self::Other => "Other",
            Self::SocketConnectionClosed => "SocketConnectionClosed",
            Self::SocketBind => "SocketBind",
            Self::SocketConnect => "SocketConnect",
            Self::SocketConnectionMissingListener => "SocketConnectionMissingListener",
            Self::SocketStreamEmpty => "SocketStreamEmpty",
            Self::SocketStreamIO => "SocketStreamIO",
            Self::SocketTermination => "SocketTermination",
            Self::SocketInvalidPath => "SocketInvalidPath",
        }
    }

    /// The kind under which an input or output error of kind `kind` is
    /// reported.
    pub open spec fn of_io(kind: IoKind) -> SocketErrorKind {
        match kind {
            IoKind::Other => SocketErrorKind::SocketConnectionMissingListener,
            IoKind::InvalidData => SocketErrorKind::SocketStreamEmpty,
            IoKind::AlreadyExists => SocketErrorKind::SocketBind,
            IoKind::ConnectionAborted => SocketErrorKind::SocketConnect,
            IoKind::NotFound => SocketErrorKind::SocketInvalidPath,
            IoKind::PermissionDenied => SocketErrorKind::SocketTermination,
            IoKind::Interrupted => SocketErrorKind::SocketStreamIO,
            IoKind::AddrInUse => SocketErrorKind::SocketAddressInUse,
            IoKind::BrokenPipe => SocketErrorKind::SocketConnectionClosed,
            IoKind::Unlisted => SocketErrorKind::Other,
        }
    }

    /// The kind of input or output error as which an error of this kind is
    /// handed on.
    pub open spec fn as_io(self) -> IoKind {
        match self {
            SocketErrorKind::SocketConnectionMissingListener => IoKind::Other,
            SocketErrorKind::SocketStreamEmpty => IoKind::Other,
            SocketErrorKind::SocketInvalidPath => IoKind::NotFound,
            SocketErrorKind::SocketBind => IoKind::AlreadyExists,
            SocketErrorKind::SocketConnect => IoKind::ConnectionAborted,
            SocketErrorKind::SocketTermination => IoKind::Other,
            SocketErrorKind::SocketStreamIO => IoKind::Interrupted,
            SocketErrorKind::SocketAddressInUse => IoKind::AddrInUse,
            SocketErrorKind::SocketConnectionClosed => IoKind::BrokenPipe,
            SocketErrorKind::Other => IoKind::Interrupted,
        }
    }
}

impl SocketError {
    /// What went wrong.
    pub closed spec fn kind_of(&self) -> SocketErrorKind {
        self.kind
    }

    /// The message of the error.
    pub closed spec fn message_of(&self) -> Seq<char> {
        self.message@
    }

    /// The place at which the error was noticed, where that is known.
    pub closed spec fn location(&self) -> Option<ErrorWhere> {
        self.error_location
    }

    /// An error of kind `kind` with the message `message`, noticed at no
    /// known place.
    pub fn new(kind: SocketErrorKind, message: String) -> (error: Self)
        ensures
            error.kind_of() == kind,
            error.message_of() == message@,
            error.location() is None,
    {
        Self { kind, message, error_location: None }
    }

    /// The same error, noticed at `location`.
    pub fn err_where(self, location: ErrorWhere) -> (error: Self)
        ensures
            error.kind_of() == self.kind_of(),
            error.message_of() == self.message_of(),
            error.location() == Some(location),
    {
        let mut error = self;
        error.error_location = Some(location);
        error
    }

    pub fn kind(&self) -> (kind: &SocketErrorKind)
        ensures
            *kind == self.kind_of(),
    {
        &self.kind
    }

    /// The message of the error.
    pub fn message(&self) -> (message: &str)
        ensures
            message@ == self.message_of(),
    {
        self.message.as_str()
    }

    /// The error under which an input or output error of kind `kind` and
    /// with the message `message` is reported.
    pub fn from_io(kind: IoKind, message: String) -> (error: Self)
        ensures
            error.kind_of() == SocketErrorKind::of_io(kind),
            error.message_of() == message@,
            error.location() is None,
    {
        let kind = match kind {
            IoKind::Other => SocketErrorKind::SocketConnectionMissingListener,
            IoKind::InvalidData => SocketErrorKind::SocketStreamEmpty,
            IoKind::AlreadyExists => SocketErrorKind::SocketBind,
            IoKind::ConnectionAborted => SocketErrorKind::SocketConnect,
            IoKind::NotFound => SocketErrorKind::SocketInvalidPath,
            IoKind::PermissionDenied => SocketErrorKind::SocketTermination,
            IoKind::Interrupted => SocketErrorKind::SocketStreamIO,
            IoKind::AddrInUse => SocketErrorKind::SocketAddressInUse,
            IoKind::BrokenPipe => SocketErrorKind::SocketConnectionClosed,
            IoKind::Unlisted => SocketErrorKind::Other,
        };
        Self::new(kind, message)
    }

    /// The message under which the error is handed on as an input or output
    /// error: a fixed one for a missing listener and for an empty stream, the
    /// error's own for every other kind.
    pub open spec fn io_message(&self) -> Seq<char> {
        match self.kind_of() {
            SocketErrorKind::SocketConnectionMissingListener =>
                "Field `listener: UnixListener` missing in struct SockerClient"@,
            SocketErrorKind::SocketStreamEmpty => "Empty stream"@,
            _ => self.message_of(),
        }
    }

    /// The kind and the message under which the error is handed on as an
    /// input or output error.
    pub fn into_io(self) -> (parts: (IoKind, String))
        ensures
            parts.0 == self.kind_of().as_io(),
            parts.1@ == self.io_message(),
    {
        match self.kind {
            SocketErrorKind::SocketConnectionMissingListener => (
                IoKind::Other,
                String::from_str("Field `listener: UnixListener` missing in struct SockerClient"),
            ),
            SocketErrorKind::SocketStreamEmpty => (IoKind::Other, String::from_str("Empty stream")),
            SocketErrorKind::SocketInvalidPath => (IoKind::NotFound, self.message),
            SocketErrorKind::SocketBind => (IoKind::AlreadyExists, self.message),
            SocketErrorKind::SocketConnect => (IoKind::ConnectionAborted, self.message),
            SocketErrorKind::SocketTermination => (IoKind::Other, self.message),
            SocketErrorKind::SocketStreamIO => (IoKind::Interrupted, self.message),
            SocketErrorKind::SocketAddressInUse => (IoKind::AddrInUse, self.message),
            SocketErrorKind::SocketConnectionClosed => (IoKind::BrokenPipe, self.message),
            SocketErrorKind::Other => (IoKind::Interrupted, self.message),
        }
    }

    /// The error as it is shown: the place, where one is known, on a line of
    /// its own, then the name of the kind, a colon and the message.
    pub open spec fn text(&self) -> Seq<char> {
        (match self.location() {
            Some(place) => "Error: On "@ + place.text() + "\n"@,
            None => Seq::<char>::empty(),
        }) + self.kind_of().name() + ": "@ + self.message_of()
    }

    /// The error as it is shown.
    pub fn to_text(&self) -> (text: String)
        ensures
            text@ == self.text(),
    {
        let mut text = String::new();
        if let Some(place) = &self.error_location {
            text.append("Error: On ");
            text.append(place.to_text().as_str());
            text.append("\n");
        }
        assert(text@ =~= match self.error_location {
            Some(place) => "Error: On "@ + place.text() + "\n"@,
            None => Seq::<char>::empty(),
        });
        text.append(self.kind.to_text());
        text.append(": ");
        text.append(self.message.as_str());
        text
    }
}

impl From<BytesError> for SocketError {
    /// Bytes of the wrong length are an error of the stream.
    fn from(value: BytesError) -> (error: SocketError)
        ensures
            error.kind_of() == SocketErrorKind::SocketStreamIO,
            error.message_of() == "Invalid byte liength"@,
            error.location() is None,
    {
        match value {
            BytesError::InvalidLength => SocketError::new(
                SocketErrorKind::SocketStreamIO,
                String::from_str("Invalid byte liength"),
            ),
        }
    }
}

impl FromSpecImpl<BytesError> for SocketError {
    open spec fn obeys_from_spec() -> bool {
        false
    }

    open spec fn from_spec(value: BytesError) -> SocketError {
        arbitrary()
    }
}

} // verus!
