//! The errors that reading, writing and handling messages can end in.

use vstd::prelude::*;
use vstd::string::*;

verus! {

/// What a failed attempt on a stream or a file reports, as far as the
/// library tells the outcomes apart.
#[derive(Debug, Clone, Copy, PartialEq, Eq, Structural)]
pub enum IoKind {
    /// Nothing could be done now without waiting.
    WouldBlock,
    /// More data came than a single message may hold.
    InvalidData,
    /// The input ended in the middle of a message.
    UnexpectedEof,
    /// The other side dropped the connection.
    ConnectionReset,
    /// The attempt was broken off before it did anything.
    Interrupted,
    /// Any other failure.
    Other,
}

/// What a JSON parser said of input it could not take, as plain values.
#[derive(Debug)]
pub struct JsonFailure {
    /// The kind of the I/O failure behind it, where there was one.
    pub io: Option<IoKind>,
    /// Whether the input ended in the middle of a value.
    pub ended: bool,
    /// The parser's own words.
    pub text: String,
}

/// The ways in which dealing with messages fails.
#[derive(Debug)]
#[allow(inconsistent_fields)]
pub enum ErrorKind {
    /// The peer closed the connection, in order or abruptly.
    NothingToRead,
    /// A frame announced more bytes than a message may have.
    MessageSizeExceeded,
    /// A stream or a file failed.
    Io { source: IoKind },
    /// What came is not JSON.
    ParsingJson { source: JsonFailure },
    /// What came does not have the shape of a message.
    MalformedMessage { message: String },
}

/// An error, with its kind.
#[derive(Debug)]
pub struct Error {
    pub kind: ErrorKind,
}

pub type Result<T> = std::result::Result<T, Error>;

impl IoKind {
    /// A few words on the failure.
    pub fn describe(&self) -> (text: String)
        ensures
            text@ == self.description(),
    {
        match self {
            IoKind::WouldBlock => "operation would block".to_owned(),
            IoKind::InvalidData => "invalid data".to_owned(),
            IoKind::UnexpectedEof => "unexpected end of file".to_owned(),
            IoKind::ConnectionReset => "connection reset".to_owned(),
            IoKind::Interrupted => "operation interrupted".to_owned(),
            IoKind::Other => "other error".to_owned(),
        }
    }

    /// The words that stand for the failure.
    pub open spec fn description(&self) -> Seq<char> {
        match self {
            IoKind::WouldBlock => "operation would block"@,
            IoKind::InvalidData => "invalid data"@,
            IoKind::UnexpectedEof => "unexpected end of file"@,
            IoKind::ConnectionReset => "connection reset"@,
            IoKind::Interrupted => "operation interrupted"@,
            IoKind::Other => "other error"@,
        }
    }
}

impl ErrorKind {
    /// What the kind says before any detail of its source.
    pub open spec fn headline(&self) -> Seq<char> {
        match self {
            ErrorKind::NothingToRead => "Unable to parse a message, closing the connection"@,
            ErrorKind::MessageSizeExceeded => "Message maximum size exceeded"@,
            ErrorKind::Io { .. } => "Io > "@,
            ErrorKind::ParsingJson { .. } => "Parsing JSON > "@,
            ErrorKind::MalformedMessage { .. } => "Received a message with incorrect format > "@,
        }
    }

    /// The line that stands for the kind.
    pub open spec fn description(&self) -> Seq<char> {
        match self {
            ErrorKind::NothingToRead => self.headline(),
            ErrorKind::MessageSizeExceeded => self.headline(),
            ErrorKind::Io { source } => self.headline() + source.description(),
            ErrorKind::ParsingJson { source } => self.headline() + source.text@,
            ErrorKind::MalformedMessage { message } => self.headline() + message@,
        }
    }

    /// One line on the error.
    pub fn describe(&self) -> (text: String)
        ensures
            text@ == self.description(),
    {
        match self {
            ErrorKind::NothingToRead => {
                "Unable to parse a message, closing the connection".to_owned()
            },
            ErrorKind::MessageSizeExceeded => "Message maximum size exceeded".to_owned(),
            ErrorKind::Io { source } => {
                let detail = source.describe();
                "Io > ".to_owned().concat(detail.as_str())
            },
            ErrorKind::ParsingJson { source } => {
                "Parsing JSON > ".to_owned().concat(source.text.as_str())
            },
            ErrorKind::MalformedMessage { message } => {
                "Received a message with incorrect format > ".to_owned().concat(message.as_str())
            },
        }
    }
}

impl Error {
    /// The error of the given kind.
    pub fn new(kind: ErrorKind) -> (error: Error)
        ensures
            error.kind == kind,
    {
        Error { kind }
    }

    /// The error that an I/O failure of the given kind stands for.
    pub fn io(source: IoKind) -> (error: Error)
        ensures
            error.kind == (ErrorKind::Io { source }),
    {
        Error { kind: ErrorKind::Io { source } }
    }

    /// The error for a message that does not have the expected shape.
    pub fn malformed(message: &str) -> (error: Error)
        ensures
            error.kind matches ErrorKind::MalformedMessage { message: text } && text@ == message@,
    {
        Error { kind: ErrorKind::MalformedMessage { message: message.to_owned() } }
    }

    /// The error that a JSON failure stands for: the I/O failure behind it
    /// where there is one, and else a parsing error that keeps the source.
    pub fn json(source: JsonFailure) -> (error: Error)
        ensures
            error.kind == match source.io {
                Some(kind) => ErrorKind::Io { source: kind },
                None => ErrorKind::ParsingJson { source },
            },
    {
        match source.io {
            Some(kind) => Error { kind: ErrorKind::Io { source: kind } },
            None => Error { kind: ErrorKind::ParsingJson { source } },
        }
    }

    /// The line that stands for the error.
    pub open spec fn description(&self) -> Seq<char> {
        "Shared Code Error > "@ + self.kind.description()
    }

    /// One line on the error.
    pub fn describe(&self) -> (text: String)
        ensures
            text@ == self.description(),
    {
        let detail = self.kind.describe();
        "Shared Code Error > ".to_owned().concat(detail.as_str())
    }
}

/// Whether the error only says that nothing could be done right now.
pub fn is_would_block_error(error: &Error) -> (yes: bool)
    ensures
        yes == (error.kind == ErrorKind::Io { source: IoKind::WouldBlock }),
{
    match &error.kind {
        ErrorKind::Io { source } => *source == IoKind::WouldBlock,
        _ => false,
    }
}

impl From<ErrorKind> for Error {
    fn from(kind: ErrorKind) -> (error: Error) {
        Error { kind }
    }
}

impl vstd::std_specs::convert::FromSpecImpl<ErrorKind> for Error {
    open spec fn obeys_from_spec() -> bool {
        true
    }

    open spec fn from_spec(kind: ErrorKind) -> Error {
        Error { kind }
    }
}

impl From<IoKind> for Error {
    fn from(source: IoKind) -> (error: Error) {
        Error { kind: ErrorKind::Io { source } }
    }
}

impl vstd::std_specs::convert::FromSpecImpl<IoKind> for Error {
    open spec fn obeys_from_spec() -> bool {
        true
    }

    open spec fn from_spec(source: IoKind) -> Error {
        Error { kind: ErrorKind::Io { source } }
    }
}

impl From<JsonFailure> for Error {
    fn from(source: JsonFailure) -> (error: Error) {
        Error::json(source)
    }
}

impl vstd::std_specs::convert::FromSpecImpl<JsonFailure> for Error {
    open spec fn obeys_from_spec() -> bool {
        true
    }

    open spec fn from_spec(source: JsonFailure) -> Error {
        Error {
            kind: match source.io {
                Some(kind) => ErrorKind::Io { source: kind },
                None => ErrorKind::ParsingJson { source },
            },
        }
    }
}

} // verus!
