//! Messages as JSON values, one after the other in a stream of text.

use crate::capped_reader::{CappedRead, CappedReader};
use crate::communication::WriteMessage;
use crate::errors::{Error, ErrorKind, IoKind, JsonFailure, Result};
use vstd::prelude::*;
use vstd::slice::*;
use vstd::string::*;
use vstd::utf8::*;

verus! {

/// `serde_json::Value`, carried through as it is: nothing inside it is
/// seen.
#[verifier::external_type_specification]
#[verifier::external_body]
pub struct ExValue(serde_json::Value);

/// What the parser makes of the front of some bytes.
pub enum JsonScan {
    /// A value stands in front; it takes `taken` bytes, blanks before it
    /// included.
    Found { taken: nat },
    /// Nothing but blanks is there.
    Empty,
    /// The bytes do not start with a value; `ended` says whether they only
    /// end too early.
    Failed { ended: bool },
}

/// What `serde_json`'s parser makes of the front of `bytes`.
pub uninterp spec fn json_scan(bytes: Seq<u8>) -> JsonScan;

/// What the parser handed out.
pub enum JsonParse {
    /// A value, and the number of bytes that it took.
    Found(serde_json::Value, usize),
    Empty,
    Failed(JsonFailure),
}

/// `serde_json::Deserializer::from_slice`, `into_iter` and one `next` of the
/// `StreamDeserializer`, with `byte_offset` after a value: the first JSON
/// value of `bytes`. What comes out is what the parser makes of the bytes;
/// a value takes no more bytes than there are. Of the value itself nothing
/// is claimed. Of a failure, `Error::is_eof` says whether the input only
/// ended too early, `Error::io_error_kind` whether a stream failed, whose
/// kind is not told apart, and `to_string` gives the parser's words.
#[verifier::external_body]
fn parse_json_prefix(bytes: &[u8]) -> (parse: JsonParse)
    ensures
        match json_scan(bytes@) {
            JsonScan::Found { taken } => parse matches JsonParse::Found(_, count) && count
                == taken && taken <= bytes@.len(),
            JsonScan::Empty => parse is Empty,
            JsonScan::Failed { ended } => parse matches JsonParse::Failed(failure)
                && failure.ended == ended,
        },
{
    let mut stream = serde_json::Deserializer::from_slice(bytes).into_iter::<serde_json::Value>();
    match stream.next() {
        Some(Ok(value)) => JsonParse::Found(value, stream.byte_offset()),
        Some(Err(error)) => JsonParse::Failed(
            JsonFailure {
                io: error.io_error_kind().map(|_| IoKind::Other),
                ended: error.is_eof(),
                text: error.to_string(),
            },
        ),
        None => JsonParse::Empty,
    }
}

/// `serde_json::Value`'s `to_string`: the value as JSON text. Nothing is
/// claimed of the text.
#[verifier::external_body]
fn json_text(value: &serde_json::Value) -> (text: String) {
    value.to_string()
}

/// Reads JSON values one at a time from bytes that are all there, and lets
/// none take more than the cap.
pub struct JsonReader {
    stream: CappedReader,
}

/// The bytes of `reader` that a value may take: all of them, or as many as
/// the cap leaves.
pub open spec fn window(reader: Seq<u8>, space: nat) -> Seq<u8> {
    if reader.len() <= space {
        reader
    } else {
        reader.subrange(0, space as int)
    }
}

impl JsonReader {
    /// The cap's book.
    pub closed spec fn stream(&self) -> CappedReader {
        self.stream
    }

    /// A reader with the given cap.
    pub fn new(capped_reader: CappedReader) -> (reader: JsonReader)
        ensures
            reader.stream() == capped_reader,
    {
        JsonReader { stream: capped_reader }
    }

    /// Turns what the parser handed out into what the reader hands out;
    /// `capped` says whether the cap kept bytes from the parser. After a
    /// value the cap counts anew. Where the input gives out because of the
    /// cap, the message is too long: invalid data. Where it gives out
    /// because it ends, there is nothing to read, or the value is cut
    /// short. Any other failure stays what it is.
    pub fn take(&mut self, parse: JsonParse, capped: bool) -> (read: Result<
        (serde_json::Value, usize),
    >)
        ensures
            final(self).stream().capacity() == old(self).stream().capacity(),
            match parse {
                JsonParse::Found(value, taken) => {
                    &&& read matches Ok(found) && found.0 == value && found.1 == taken
                    &&& final(self).stream().offset() == 0
                },
                JsonParse::Empty => {
                    &&& final(self).stream().offset() == old(self).stream().offset()
                    &&& read matches Err(error) && error.kind == if capped {
                        ErrorKind::Io { source: IoKind::InvalidData }
                    } else {
                        ErrorKind::NothingToRead
                    }
                },
                JsonParse::Failed(failure) => {
                    &&& final(self).stream().offset() == old(self).stream().offset()
                    &&& read matches Err(error) && error.kind == if failure.ended && capped {
                        ErrorKind::Io { source: IoKind::InvalidData }
                    } else {
                        match failure.io {
                            Some(kind) => ErrorKind::Io { source: kind },
                            None => ErrorKind::ParsingJson { source: failure },
                        }
                    }
                },
            },
    {
        match parse {
            JsonParse::Found(value, taken) => {
                self.stream.clear();
                Ok((value, taken))
            },
            JsonParse::Empty => {
                if capped {
                    Err(Error::io(IoKind::InvalidData))
                } else {
                    Err(Error::new(ErrorKind::NothingToRead))
                }
            },
            JsonParse::Failed(failure) => {
                if failure.ended && capped {
                    Err(Error::io(IoKind::InvalidData))
                } else {
                    Err(Error::json(failure))
                }
            },
        }
    }

    /// Reads the value in front of `reader` and says how many bytes it
    /// took. The parser sees no more bytes than the cap leaves; with a cap
    /// that leaves none the reading fails as invalid data.
    pub fn read_message(&mut self, reader: &[u8]) -> (read: Result<(serde_json::Value, usize)>)
        ensures
            final(self).stream().capacity() == old(self).stream().capacity(),
            old(self).stream().offset() <= old(self).stream().capacity(),
            ({
                let space = (old(self).stream().capacity() - old(self).stream().offset()) as nat;
                let capped = reader@.len() > space;
                let invalid = ErrorKind::Io { source: IoKind::InvalidData };
                if space == 0 {
                    read matches Err(error) && error.kind == invalid
                } else {
                    match json_scan(window(reader@, space)) {
                        JsonScan::Found { taken } => {
                            &&& read matches Ok(found) && found.1 == taken
                            &&& taken <= reader@.len()
                            &&& taken <= space
                            &&& final(self).stream().offset() == 0
                        },
                        JsonScan::Empty => read matches Err(error) && error.kind == if capped {
                            invalid
                        } else {
                            ErrorKind::NothingToRead
                        },
                        JsonScan::Failed { ended } => read matches Err(error) && if ended
                            && capped {
                            error.kind == invalid
                        } else {
                            error.kind is Io || error.kind is ParsingJson
                        },
                    }
                }
            }),
    {
        let space = self.stream.space_left();
        if space == 0 {
            return Err(Error::io(IoKind::InvalidData));
        }
        let capped = reader.len() > space;
        let seen = if capped {
            slice_subrange(reader, 0, space)
        } else {
            reader
        };
        let parse = parse_json_prefix(seen);
        self.take(parse, capped)
    }
}

/// Turns JSON values into text for the wire.
pub struct JsonWriter {}

impl JsonWriter {
    /// A writer of values.
    pub fn new() -> (writer: JsonWriter) {
        JsonWriter {  }
    }
}

impl WriteMessage<serde_json::Value> for JsonWriter {
    /// The bytes of the value's JSON text.
    fn write_message(&mut self, message: &serde_json::Value) -> (frame: Result<Vec<u8>>)
        ensures
            frame matches Ok(bytes) && valid_utf8(bytes@),
    {
        let text = json_text(message);
        proof {
            encode_utf8_valid_utf8(text@);
        }
        Ok(slice_to_vec(text.as_str().as_bytes()))
    }
}

} // verus!
