//! Messages on the wire: documents, their frames, and the typed messages
//! inside them.

pub mod arson;
pub mod bson;
pub mod fields;
pub mod json;

use crate::errors::{Error, ErrorKind, IoKind, Result};
use vstd::string::*;
use vstd::prelude::*;

verus! {

/// Something that finds messages in what a stream gives.
pub trait ReadMessage<M> {
    /// Takes in what one read of the stream gave: the bytes it fetched, none
    /// where the peer has closed the stream, or the kind of its failure.
    /// Hands out the next message, if one is complete.
    fn read_message(&mut self, incoming: core::result::Result<Vec<u8>, IoKind>) -> Result<M>;
}

/// Something that turns messages into what goes on the wire.
pub trait WriteMessage<M> {
    /// The bytes that carry `message`: the caller puts them on the wire in
    /// one piece, or not at all.
    fn write_message(&mut self, message: &M) -> Result<Vec<u8>>;
}

/// Port the server listens on unless told otherwise.
pub const DEFAULT_PORT: u32 = 6969;

/// What the loop does after a message has been handled.
#[derive(Debug, Clone, Copy, PartialEq, Eq, Structural)]
pub enum MessageProcessing {
    /// Something was done: go on at once.
    Proceed,
    /// Nothing was there to do: the loop may rest a moment.
    ProceedButWaiting,
    /// The session is over.
    Stop,
}

/// What is said of too much data for one message.
pub open spec fn too_much_data() -> Seq<char> {
    "Too much data for a single message, disconnecting"@
}

/// What an error is explained as.
pub open spec fn explained(error: Error) -> Seq<char> {
    if error.kind == (ErrorKind::Io { source: IoKind::InvalidData }) {
        too_much_data()
    } else {
        error.description()
    }
}

/// Explains an error to the user: invalid data means that a message was too
/// long; any other error is described as it is.
pub fn explain_common_error(error: &Error) -> (text: String)
    ensures
        text@ == explained(*error),
{
    match &error.kind {
        ErrorKind::Io { source } => match source {
            IoKind::InvalidData => "Too much data for a single message, disconnecting".to_owned(),
            _ => error.describe(),
        },
        _ => error.describe(),
    }
}

} // verus!
