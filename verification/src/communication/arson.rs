//! Typed messages in documents: how each message is spelled in a body, and
//! the readers and the writer that deal in messages.
//!
//! A body starts with one byte that tells the kind of message; its fields
//! follow in the order in which the message declares them.

use crate::communication::bson::{
    announced, arrival, frameable, framed, framing, lemma_frame_announces_its_length,
    lemma_frame_arrives, reading, seen, BsonReader, BsonScanner, BsonWriter, Document, Failure,
    Framing, Reading,
};
use crate::communication::{ReadMessage, WriteMessage};
use crate::communication::fields::{
    blob_at, blob_bytes, index_at, lemma_blob_piece, lemma_index_piece, lemma_sizes,
    lemma_text_piece, lemma_time_piece, number_bytes, put_blob, put_index, put_text, put_time, take_blob,
    take_index, take_text, take_time, text_at, text_bytes, time_at, time_bytes,
};
use crate::connection::messages::{
    ClientMessage, ClientMessageView, CommonMessage, CommonMessageView, ServerMessage,
    ServerMessageView, CHUNK_SIZE, MAXIMUM_FILE_NAME_SIZE, MAXIMUM_MESSAGE_SIZE,
    MAXIMUM_NAME_SIZE, MAXIMUM_TEXT_SIZE,
};
use crate::text::byte_len;
use crate::errors::{Error, ErrorKind, IoKind, Result};
use vstd::prelude::*;
use vstd::string::*;
use vstd::utf8::*;

verus! {

/// A message that has a spelling in bytes.
pub trait Message: Sized + View {
    /// The body that spells `message`.
    spec fn body(message: Self::V) -> Seq<u8>;

    /// The message that `body` spells, if it spells one.
    spec fn parsed(body: Seq<u8>) -> Option<Self::V>;

    /// The document that carries the message, unless it is too long for a
    /// frame.
    fn to_document(&self) -> (document: Result<Document>)
        ensures
            match document {
                Ok(it) => frameable(Self::body(self@)) && it@ == Self::body(self@),
                Err(error) => !frameable(Self::body(self@)) && error.kind
                    == ErrorKind::MessageSizeExceeded,
            },
    ;

    /// The message that the document carries, if its body spells one.
    fn from_document(document: &Document) -> (message: Result<Self>)
        ensures
            match Self::parsed(document@) {
                Some(it) => message matches Ok(found) && found@ == it,
                None => message matches Err(error) && error.kind is MalformedMessage,
            },
    ;

    /// What was spelled is read back as it was.
    proof fn lemma_round_trip(message: Self::V)
        requires
            frameable(Self::body(message)),
        ensures
            Self::parsed(Self::body(message)) == Some(message),
    ;
}

/// The body that spells a common message.
pub open spec fn common_body(message: CommonMessageView) -> Seq<u8> {
    match message {
        CommonMessageView::Chunk { data, id } => seq![0u8] + blob_bytes(data) + number_bytes(
            id as u64,
        ),
    }
}

/// The common message that stands at `at`, with the place behind it.
pub open spec fn common_at(bytes: Seq<u8>, at: int) -> Option<(CommonMessageView, int)> {
    if 0 <= at < bytes.len() && bytes[at] == 0 {
        match blob_at(bytes, at + 1) {
            Some((data, next)) => match index_at(bytes, next) {
                Some((id, end)) => Some((CommonMessageView::Chunk { data, id }, end)),
                None => None,
            },
            None => None,
        }
    } else {
        None
    }
}

/// The body that spells a client's message.
pub open spec fn client_body(message: ClientMessageView) -> Seq<u8> {
    match message {
        ClientMessageView::Text { text } => seq![0u8] + text_bytes(text),
        ClientMessageView::Leave => seq![1u8],
        ClientMessageView::Rename { new_name } => seq![2u8] + text_bytes(new_name),
        ClientMessageView::Common { common } => seq![3u8] + common_body(common),
        ClientMessageView::RequestFileUpload { name, size, id } => seq![4u8] + text_bytes(name)
            + number_bytes(size as u64) + number_bytes(id as u64),
        ClientMessageView::RequestFileDownload { name } => seq![5u8] + text_bytes(name),
        ClientMessageView::AgreeFileDownload { id } => seq![6u8] + number_bytes(id as u64),
        ClientMessageView::DeclineFileDownload { id } => seq![7u8] + number_bytes(id as u64),
    }
}

/// The client's message that the body spells up to some place, with that
/// place.
pub open spec fn client_at(body: Seq<u8>) -> Option<(ClientMessageView, int)> {
    if body.len() == 0 {
        None
    } else if body[0] == 0 {
        match text_at(body, 1) {
            Some((text, end)) => Some((ClientMessageView::Text { text }, end)),
            None => None,
        }
    } else if body[0] == 1 {
        Some((ClientMessageView::Leave, 1))
    } else if body[0] == 2 {
        match text_at(body, 1) {
            Some((new_name, end)) => Some((ClientMessageView::Rename { new_name }, end)),
            None => None,
        }
    } else if body[0] == 3 {
        match common_at(body, 1) {
            Some((common, end)) => Some((ClientMessageView::Common { common }, end)),
            None => None,
        }
    } else if body[0] == 4 {
        match text_at(body, 1) {
            Some((name, first)) => match index_at(body, first) {
                Some((size, second)) => match index_at(body, second) {
                    Some((id, end)) => Some(
                        (ClientMessageView::RequestFileUpload { name, size, id }, end),
                    ),
                    None => None,
                },
                None => None,
            },
            None => None,
        }
    } else if body[0] == 5 {
        match text_at(body, 1) {
            Some((name, end)) => Some((ClientMessageView::RequestFileDownload { name }, end)),
            None => None,
        }
    } else if body[0] == 6 {
        match index_at(body, 1) {
            Some((id, end)) => Some((ClientMessageView::AgreeFileDownload { id }, end)),
            None => None,
        }
    } else if body[0] == 7 {
        match index_at(body, 1) {
            Some((id, end)) => Some((ClientMessageView::DeclineFileDownload { id }, end)),
            None => None,
        }
    } else {
        None
    }
}

/// The body that spells a server's message.
pub open spec fn server_body(message: ServerMessageView) -> Seq<u8> {
    match message {
        ServerMessageView::Text { text, name, time } => seq![0u8] + text_bytes(text) + text_bytes(
            name,
        ) + time_bytes(time),
        ServerMessageView::NewUser { name, time } => seq![1u8] + text_bytes(name) + time_bytes(
            time,
        ),
        ServerMessageView::Interrupt { name, time } => seq![2u8] + text_bytes(name) + time_bytes(
            time,
        ),
        ServerMessageView::UserLeaves { name, time } => seq![3u8] + text_bytes(name) + time_bytes(
            time,
        ),
        ServerMessageView::Support { text } => seq![4u8] + text_bytes(text),
        ServerMessageView::UserRenamed { old_name, new_name } => seq![5u8] + text_bytes(old_name)
            + text_bytes(new_name),
        ServerMessageView::NewFile { name } => seq![6u8] + text_bytes(name),
        ServerMessageView::Common { common } => seq![7u8] + common_body(common),
        ServerMessageView::AgreeFileUpload { id } => seq![8u8] + number_bytes(id as u64),
        ServerMessageView::DeclineFileUpload { id, reason } => seq![9u8] + number_bytes(id as u64)
            + text_bytes(reason),
        ServerMessageView::AgreeFileDownload { name, size, id } => seq![10u8] + text_bytes(name)
            + number_bytes(size as u64) + number_bytes(id as u64),
        ServerMessageView::DeclineFileDownload { name, reason } => seq![11u8] + text_bytes(name)
            + text_bytes(reason),
    }
}

/// A text and then a point in time, from `at` on.
pub open spec fn text_time_at(bytes: Seq<u8>, at: int) -> Option<(Seq<char>, i64, int)> {
    match text_at(bytes, at) {
        Some((text, next)) => match time_at(bytes, next) {
            Some((time, end)) => Some((text, time, end)),
            None => None,
        },
        None => None,
    }
}

/// Two texts, from `at` on.
pub open spec fn two_texts_at(bytes: Seq<u8>, at: int) -> Option<(Seq<char>, Seq<char>, int)> {
    match text_at(bytes, at) {
        Some((first, next)) => match text_at(bytes, next) {
            Some((second, end)) => Some((first, second, end)),
            None => None,
        },
        None => None,
    }
}

/// The server's message that the body spells up to some place, with that
/// place.
pub open spec fn server_at(body: Seq<u8>) -> Option<(ServerMessageView, int)> {
    if body.len() == 0 {
        None
    } else if body[0] == 0 {
        match text_at(body, 1) {
            Some((text, next)) => match text_time_at(body, next) {
                Some((name, time, end)) => Some((ServerMessageView::Text { text, name, time }, end)),
                None => None,
            },
            None => None,
        }
    } else if body[0] == 1 {
        match text_time_at(body, 1) {
            Some((name, time, end)) => Some((ServerMessageView::NewUser { name, time }, end)),
            None => None,
        }
    } else if body[0] == 2 {
        match text_time_at(body, 1) {
            Some((name, time, end)) => Some((ServerMessageView::Interrupt { name, time }, end)),
            None => None,
        }
    } else if body[0] == 3 {
        match text_time_at(body, 1) {
            Some((name, time, end)) => Some((ServerMessageView::UserLeaves { name, time }, end)),
            None => None,
        }
    } else if body[0] == 4 {
        match text_at(body, 1) {
            Some((text, end)) => Some((ServerMessageView::Support { text }, end)),
            None => None,
        }
    } else if body[0] == 5 {
        match two_texts_at(body, 1) {
            Some((old_name, new_name, end)) => Some(
                (ServerMessageView::UserRenamed { old_name, new_name }, end),
            ),
            None => None,
        }
    } else if body[0] == 6 {
        match text_at(body, 1) {
            Some((name, end)) => Some((ServerMessageView::NewFile { name }, end)),
            None => None,
        }
    } else if body[0] == 7 {
        match common_at(body, 1) {
            Some((common, end)) => Some((ServerMessageView::Common { common }, end)),
            None => None,
        }
    } else if body[0] == 8 {
        match index_at(body, 1) {
            Some((id, end)) => Some((ServerMessageView::AgreeFileUpload { id }, end)),
            None => None,
        }
    } else if body[0] == 9 {
        match index_at(body, 1) {
            Some((id, next)) => match text_at(body, next) {
                Some((reason, end)) => Some(
                    (ServerMessageView::DeclineFileUpload { id, reason }, end),
                ),
                None => None,
            },
            None => None,
        }
    } else if body[0] == 10 {
        match text_at(body, 1) {
            Some((name, first)) => match index_at(body, first) {
                Some((size, second)) => match index_at(body, second) {
                    Some((id, end)) => Some(
                        (ServerMessageView::AgreeFileDownload { name, size, id }, end),
                    ),
                    None => None,
                },
                None => None,
            },
            None => None,
        }
    } else if body[0] == 11 {
        match two_texts_at(body, 1) {
            Some((name, reason, end)) => Some(
                (ServerMessageView::DeclineFileDownload { name, reason }, end),
            ),
            None => None,
        }
    } else {
        None
    }
}

/// What was read up to some place counts only where that place is the end.
pub open spec fn whole<T>(found: Option<(T, int)>, length: nat) -> Option<T> {
    match found {
        Some((it, end)) => if end == length {
            Some(it)
        } else {
            None
        },
        None => None,
    }
}

/// A common message that stands between two runs of bytes is read back
/// from where the first run ends.
pub proof fn lemma_common_piece(
    bytes: Seq<u8>,
    before: Seq<u8>,
    message: CommonMessageView,
    after: Seq<u8>,
)
    requires
        bytes == before + common_body(message) + after,
        common_body(message).len() <= u32::MAX,
    ensures
        common_at(bytes, before.len() as int) == Some(
            (message, (before.len() + common_body(message).len()) as int),
        ),
{
    match message {
        CommonMessageView::Chunk { data, id } => {
            let head = before + seq![0u8];
            let number = number_bytes(id as u64);
            assert(bytes =~= head + blob_bytes(data) + (number + after));
            lemma_blob_piece(bytes, head, data, number + after);
            let first = head + blob_bytes(data);
            assert(bytes =~= first + number + after);
            lemma_index_piece(bytes, first, id, after);
            assert(bytes[before.len() as int] == 0u8);
        },
    }
}

/// Spells a common message behind what `out` holds. Where it says no, the
/// message is too long for any frame.
pub fn spell_common(message: &CommonMessage, out: &mut Vec<u8>) -> (spelled: bool)
    ensures
        spelled ==> final(out)@ == old(out)@ + common_body(message@),
        !spelled ==> common_body(message@).len() > u32::MAX,
{
    match message {
        CommonMessage::Chunk { data, id } => {
            out.push(0u8);
            if !put_blob(out, data.as_slice()) {
                return false;
            }
            put_index(out, *id);
            assert(out@ =~= old(out)@ + common_body(message@));
            true
        },
    }
}

/// Reads the common message that stands at `at`.
pub fn read_common(bytes: &[u8], at: usize) -> (found: Option<(CommonMessage, usize)>)
    ensures
        match found {
            Some((message, end)) => common_at(bytes@, at as int) == Some((message@, end as int)),
            None => common_at(bytes@, at as int) is None,
        },
{
    if at >= bytes.len() || bytes[at] != 0u8 {
        return None;
    }
    let (data, next) = take_blob(bytes, at + 1)?;
    let (id, end) = take_index(bytes, next)?;
    Some((CommonMessage::Chunk { data, id }, end))
}

fn too_long() -> (error: Error)
    ensures
        error.kind == ErrorKind::MessageSizeExceeded,
{
    Error::new(ErrorKind::MessageSizeExceeded)
}

fn unreadable() -> (error: Error)
    ensures
        error.kind is MalformedMessage,
{
    Error::malformed("the body does not spell a message")
}

/// The document of a body that has been spelled, unless it is too long for
/// a frame.
fn bound(body: Vec<u8>) -> (document: Result<Document>)
    ensures
        match document {
            Ok(it) => frameable(body@) && it@ == body@,
            Err(error) => !frameable(body@) && error.kind == ErrorKind::MessageSizeExceeded,
        },
{
    if body.len() > 0xffff_fffb {
        Err(too_long())
    } else {
        Ok(Document::new(body))
    }
}

impl Message for CommonMessage {
    open spec fn body(message: CommonMessageView) -> Seq<u8> {
        common_body(message)
    }

    open spec fn parsed(body: Seq<u8>) -> Option<CommonMessageView> {
        whole(common_at(body, 0), body.len())
    }

    fn to_document(&self) -> (document: Result<Document>) {
        let mut body: Vec<u8> = Vec::new();
        if !spell_common(self, &mut body) {
            return Err(too_long());
        }
        assert(body@ =~= common_body(self@));
        bound(body)
    }

    fn from_document(document: &Document) -> (message: Result<CommonMessage>) {
        match read_common(document.body.as_slice(), 0) {
            Some((message, end)) => {
                if end == document.body.len() {
                    Ok(message)
                } else {
                    Err(unreadable())
                }
            },
            None => Err(unreadable()),
        }
    }

    proof fn lemma_round_trip(message: CommonMessageView) {
        let body = common_body(message);
        assert(body =~= Seq::<u8>::empty() + body + Seq::<u8>::empty());
        lemma_common_piece(body, Seq::empty(), message, Seq::empty());
    }
}

/// Spells a client's message behind what `out` holds. Where it says no, the
/// message is too long for any frame.
pub fn spell_client(message: &ClientMessage, out: &mut Vec<u8>) -> (spelled: bool)
    ensures
        spelled ==> final(out)@ == old(out)@ + client_body(message@),
        !spelled ==> client_body(message@).len() > u32::MAX,
{
    let spelled = match message {
        ClientMessage::Text { text } => {
            out.push(0u8);
            put_text(out, text.as_str())
        },
        ClientMessage::Leave => {
            out.push(1u8);
            true
        },
        ClientMessage::Rename { new_name } => {
            out.push(2u8);
            put_text(out, new_name.as_str())
        },
        ClientMessage::Common { common } => {
            out.push(3u8);
            spell_common(common, out)
        },
        ClientMessage::RequestFileUpload { name, size, id } => {
            out.push(4u8);
            if put_text(out, name.as_str()) {
                put_index(out, *size);
                put_index(out, *id);
                true
            } else {
                false
            }
        },
        ClientMessage::RequestFileDownload { name } => {
            out.push(5u8);
            put_text(out, name.as_str())
        },
        ClientMessage::AgreeFileDownload { id } => {
            out.push(6u8);
            put_index(out, *id);
            true
        },
        ClientMessage::DeclineFileDownload { id } => {
            out.push(7u8);
            put_index(out, *id);
            true
        },
    };
    if spelled {
        assert(out@ =~= old(out)@ + client_body(message@));
    }
    spelled
}

/// Reads the client's message that starts the body.
pub fn read_client(bytes: &[u8]) -> (found: Option<(ClientMessage, usize)>)
    ensures
        match found {
            Some((message, end)) => client_at(bytes@) == Some((message@, end as int)),
            None => client_at(bytes@) is None,
        },
{
    if bytes.len() == 0 {
        return None;
    }
    let kind = bytes[0];
    if kind == 0 {
        let (text, end) = take_text(bytes, 1)?;
        Some((ClientMessage::Text { text }, end))
    } else if kind == 1 {
        Some((ClientMessage::Leave, 1))
    } else if kind == 2 {
        let (new_name, end) = take_text(bytes, 1)?;
        Some((ClientMessage::Rename { new_name }, end))
    } else if kind == 3 {
        let (common, end) = read_common(bytes, 1)?;
        Some((ClientMessage::Common { common }, end))
    } else if kind == 4 {
        let (name, first) = take_text(bytes, 1)?;
        let (size, second) = take_index(bytes, first)?;
        let (id, end) = take_index(bytes, second)?;
        Some((ClientMessage::RequestFileUpload { name, size, id }, end))
    } else if kind == 5 {
        let (name, end) = take_text(bytes, 1)?;
        Some((ClientMessage::RequestFileDownload { name }, end))
    } else if kind == 6 {
        let (id, end) = take_index(bytes, 1)?;
        Some((ClientMessage::AgreeFileDownload { id }, end))
    } else if kind == 7 {
        let (id, end) = take_index(bytes, 1)?;
        Some((ClientMessage::DeclineFileDownload { id }, end))
    } else {
        None
    }
}

/// A client's message that was spelled is read back, up to the end of its
/// spelling.
pub proof fn lemma_client_at(message: ClientMessageView)
    requires
        client_body(message).len() <= u32::MAX,
    ensures
        client_at(client_body(message)) == Some((message, client_body(message).len() as int)),
{
    let body = client_body(message);
    let none = Seq::<u8>::empty();
    match message {
        ClientMessageView::Text { text } => {
            assert(body =~= seq![0u8] + text_bytes(text) + none);
            lemma_text_piece(body, seq![0u8], text, none);
        },
        ClientMessageView::Leave => {},
        ClientMessageView::Rename { new_name } => {
            assert(body =~= seq![2u8] + text_bytes(new_name) + none);
            lemma_text_piece(body, seq![2u8], new_name, none);
        },
        ClientMessageView::Common { common } => {
            assert(body =~= seq![3u8] + common_body(common) + none);
            lemma_common_piece(body, seq![3u8], common, none);
        },
        ClientMessageView::RequestFileUpload { name, size, id } => {
            let first = number_bytes(size as u64);
            let second = number_bytes(id as u64);
            assert(body =~= seq![4u8] + text_bytes(name) + (first + second));
            lemma_text_piece(body, seq![4u8], name, first + second);
            assert(body =~= (seq![4u8] + text_bytes(name)) + first + second);
            lemma_index_piece(body, seq![4u8] + text_bytes(name), size, second);
            assert(body =~= (seq![4u8] + text_bytes(name) + first) + second + none);
            lemma_index_piece(body, seq![4u8] + text_bytes(name) + first, id, none);
        },
        ClientMessageView::RequestFileDownload { name } => {
            assert(body =~= seq![5u8] + text_bytes(name) + none);
            lemma_text_piece(body, seq![5u8], name, none);
        },
        ClientMessageView::AgreeFileDownload { id } => {
            assert(body =~= seq![6u8] + number_bytes(id as u64) + none);
            lemma_index_piece(body, seq![6u8], id, none);
        },
        ClientMessageView::DeclineFileDownload { id } => {
            assert(body =~= seq![7u8] + number_bytes(id as u64) + none);
            lemma_index_piece(body, seq![7u8], id, none);
        },
    }
}

impl Message for ClientMessage {
    open spec fn body(message: ClientMessageView) -> Seq<u8> {
        client_body(message)
    }

    open spec fn parsed(body: Seq<u8>) -> Option<ClientMessageView> {
        whole(client_at(body), body.len())
    }

    fn to_document(&self) -> (document: Result<Document>) {
        let mut body: Vec<u8> = Vec::new();
        if !spell_client(self, &mut body) {
            return Err(too_long());
        }
        assert(body@ =~= client_body(self@));
        bound(body)
    }

    fn from_document(document: &Document) -> (message: Result<ClientMessage>) {
        match read_client(document.body.as_slice()) {
            Some((message, end)) => {
                if end == document.body.len() {
                    Ok(message)
                } else {
                    Err(unreadable())
                }
            },
            None => Err(unreadable()),
        }
    }

    proof fn lemma_round_trip(message: ClientMessageView) {
        lemma_client_at(message);
    }
}

/// Spells a server's message behind what `out` holds. Where it says no, the
/// message is too long for any frame.
pub fn spell_server(message: &ServerMessage, out: &mut Vec<u8>) -> (spelled: bool)
    ensures
        spelled ==> final(out)@ == old(out)@ + server_body(message@),
        !spelled ==> server_body(message@).len() > u32::MAX,
{
    let spelled = match message {
        ServerMessage::Text { text, name, time } => {
            out.push(0u8);
            if put_text(out, text.as_str()) && put_text(out, name.as_str()) {
                put_time(out, *time);
                true
            } else {
                false
            }
        },
        ServerMessage::NewUser { name, time } => {
            out.push(1u8);
            if put_text(out, name.as_str()) {
                put_time(out, *time);
                true
            } else {
                false
            }
        },
        ServerMessage::Interrupt { name, time } => {
            out.push(2u8);
            if put_text(out, name.as_str()) {
                put_time(out, *time);
                true
            } else {
                false
            }
        },
        ServerMessage::UserLeaves { name, time } => {
            out.push(3u8);
            if put_text(out, name.as_str()) {
                put_time(out, *time);
                true
            } else {
                false
            }
        },
        ServerMessage::Support { text } => {
            out.push(4u8);
            put_text(out, text.as_str())
        },
        ServerMessage::UserRenamed { old_name, new_name } => {
            out.push(5u8);
            put_text(out, old_name.as_str()) && put_text(out, new_name.as_str())
        },
        ServerMessage::NewFile { name } => {
            out.push(6u8);
            put_text(out, name.as_str())
        },
        ServerMessage::Common { common } => {
            out.push(7u8);
            spell_common(common, out)
        },
        ServerMessage::AgreeFileUpload { id } => {
            out.push(8u8);
            put_index(out, *id);
            true
        },
        ServerMessage::DeclineFileUpload { id, reason } => {
            out.push(9u8);
            put_index(out, *id);
            put_text(out, reason.as_str())
        },
        ServerMessage::AgreeFileDownload { name, size, id } => {
            out.push(10u8);
            if put_text(out, name.as_str()) {
                put_index(out, *size);
                put_index(out, *id);
                true
            } else {
                false
            }
        },
        ServerMessage::DeclineFileDownload { name, reason } => {
            out.push(11u8);
            put_text(out, name.as_str()) && put_text(out, reason.as_str())
        },
    };
    if spelled {
        assert(out@ =~= old(out)@ + server_body(message@));
    }
    spelled
}

fn take_text_time(bytes: &[u8], at: usize) -> (found: Option<(String, i64, usize)>)
    ensures
        match found {
            Some((text, time, end)) => text_time_at(bytes@, at as int) == Some(
                (text@, time, end as int),
            ),
            None => text_time_at(bytes@, at as int) is None,
        },
{
    let (text, next) = take_text(bytes, at)?;
    let (time, end) = take_time(bytes, next)?;
    Some((text, time, end))
}

fn take_two_texts(bytes: &[u8], at: usize) -> (found: Option<(String, String, usize)>)
    ensures
        match found {
            Some((first, second, end)) => two_texts_at(bytes@, at as int) == Some(
                (first@, second@, end as int),
            ),
            None => two_texts_at(bytes@, at as int) is None,
        },
{
    let (first, next) = take_text(bytes, at)?;
    let (second, end) = take_text(bytes, next)?;
    Some((first, second, end))
}

/// Reads the server's message that starts the body.
pub fn read_server(bytes: &[u8]) -> (found: Option<(ServerMessage, usize)>)
    ensures
        match found {
            Some((message, end)) => server_at(bytes@) == Some((message@, end as int)),
            None => server_at(bytes@) is None,
        },
{
    if bytes.len() == 0 {
        return None;
    }
    let kind = bytes[0];
    if kind == 0 {
        let (text, next) = take_text(bytes, 1)?;
        let (name, time, end) = take_text_time(bytes, next)?;
        Some((ServerMessage::Text { text, name, time }, end))
    } else if kind == 1 {
        let (name, time, end) = take_text_time(bytes, 1)?;
        Some((ServerMessage::NewUser { name, time }, end))
    } else if kind == 2 {
        let (name, time, end) = take_text_time(bytes, 1)?;
        Some((ServerMessage::Interrupt { name, time }, end))
    } else if kind == 3 {
        let (name, time, end) = take_text_time(bytes, 1)?;
        Some((ServerMessage::UserLeaves { name, time }, end))
    } else if kind == 4 {
        let (text, end) = take_text(bytes, 1)?;
        Some((ServerMessage::Support { text }, end))
    } else if kind == 5 {
        let (old_name, new_name, end) = take_two_texts(bytes, 1)?;
        Some((ServerMessage::UserRenamed { old_name, new_name }, end))
    } else if kind == 6 {
        let (name, end) = take_text(bytes, 1)?;
        Some((ServerMessage::NewFile { name }, end))
    } else if kind == 7 {
        let (common, end) = read_common(bytes, 1)?;
        Some((ServerMessage::Common { common }, end))
    } else if kind == 8 {
        let (id, end) = take_index(bytes, 1)?;
        Some((ServerMessage::AgreeFileUpload { id }, end))
    } else if kind == 9 {
        let (id, next) = take_index(bytes, 1)?;
        let (reason, end) = take_text(bytes, next)?;
        Some((ServerMessage::DeclineFileUpload { id, reason }, end))
    } else if kind == 10 {
        let (name, first) = take_text(bytes, 1)?;
        let (size, second) = take_index(bytes, first)?;
        let (id, end) = take_index(bytes, second)?;
        Some((ServerMessage::AgreeFileDownload { name, size, id }, end))
    } else if kind == 11 {
        let (name, reason, end) = take_two_texts(bytes, 1)?;
        Some((ServerMessage::DeclineFileDownload { name, reason }, end))
    } else {
        None
    }
}

proof fn lemma_text_time_piece(
    body: Seq<u8>,
    before: Seq<u8>,
    text: Seq<char>,
    time: i64,
)
    requires
        body == before + text_bytes(text) + time_bytes(time),
        body.len() <= u32::MAX,
    ensures
        text_time_at(body, before.len() as int) == Some((text, time, body.len() as int)),
{
    let none = Seq::<u8>::empty();
    lemma_text_piece(body, before, text, time_bytes(time));
    assert(body =~= (before + text_bytes(text)) + time_bytes(time) + none);
    lemma_time_piece(body, before + text_bytes(text), time, none);
}

proof fn lemma_two_texts_piece(
    body: Seq<u8>,
    before: Seq<u8>,
    first: Seq<char>,
    second: Seq<char>,
)
    requires
        body == before + text_bytes(first) + text_bytes(second),
        body.len() <= u32::MAX,
    ensures
        two_texts_at(body, before.len() as int) == Some((first, second, body.len() as int)),
{
    let none = Seq::<u8>::empty();
    lemma_text_piece(body, before, first, text_bytes(second));
    assert(body =~= (before + text_bytes(first)) + text_bytes(second) + none);
    lemma_text_piece(body, before + text_bytes(first), second, none);
}

/// A server's message that was spelled is read back, up to the end of its
/// spelling.
pub proof fn lemma_server_at(message: ServerMessageView)
    requires
        server_body(message).len() <= u32::MAX,
    ensures
        server_at(server_body(message)) == Some((message, server_body(message).len() as int)),
{
    let body = server_body(message);
    let none = Seq::<u8>::empty();
    match message {
        ServerMessageView::Text { text, name, time } => {
            let tail = text_bytes(name) + time_bytes(time);
            assert(body =~= seq![0u8] + text_bytes(text) + tail);
            lemma_text_piece(body, seq![0u8], text, tail);
            assert(body =~= (seq![0u8] + text_bytes(text)) + text_bytes(name) + time_bytes(time));
            lemma_text_time_piece(body, seq![0u8] + text_bytes(text), name, time);
        },
        ServerMessageView::NewUser { name, time } => {
            lemma_text_time_piece(body, seq![1u8], name, time);
        },
        ServerMessageView::Interrupt { name, time } => {
            lemma_text_time_piece(body, seq![2u8], name, time);
        },
        ServerMessageView::UserLeaves { name, time } => {
            lemma_text_time_piece(body, seq![3u8], name, time);
        },
        ServerMessageView::Support { text } => {
            assert(body =~= seq![4u8] + text_bytes(text) + none);
            lemma_text_piece(body, seq![4u8], text, none);
        },
        ServerMessageView::UserRenamed { old_name, new_name } => {
            lemma_two_texts_piece(body, seq![5u8], old_name, new_name);
        },
        ServerMessageView::NewFile { name } => {
            assert(body =~= seq![6u8] + text_bytes(name) + none);
            lemma_text_piece(body, seq![6u8], name, none);
        },
        ServerMessageView::Common { common } => {
            assert(body =~= seq![7u8] + common_body(common) + none);
            lemma_common_piece(body, seq![7u8], common, none);
        },
        ServerMessageView::AgreeFileUpload { id } => {
            assert(body =~= seq![8u8] + number_bytes(id as u64) + none);
            lemma_index_piece(body, seq![8u8], id, none);
        },
        ServerMessageView::DeclineFileUpload { id, reason } => {
            let number = number_bytes(id as u64);
            lemma_index_piece(body, seq![9u8], id, text_bytes(reason));
            assert(body =~= (seq![9u8] + number) + text_bytes(reason) + none);
            lemma_text_piece(body, seq![9u8] + number, reason, none);
        },
        ServerMessageView::AgreeFileDownload { name, size, id } => {
            let first = number_bytes(size as u64);
            let second = number_bytes(id as u64);
            assert(body =~= seq![10u8] + text_bytes(name) + (first + second));
            lemma_text_piece(body, seq![10u8], name, first + second);
            assert(body =~= (seq![10u8] + text_bytes(name)) + first + second);
            lemma_index_piece(body, seq![10u8] + text_bytes(name), size, second);
            assert(body =~= (seq![10u8] + text_bytes(name) + first) + second + none);
            lemma_index_piece(body, seq![10u8] + text_bytes(name) + first, id, none);
        },
        ServerMessageView::DeclineFileDownload { name, reason } => {
            lemma_two_texts_piece(body, seq![11u8], name, reason);
        },
    }
}

impl Message for ServerMessage {
    open spec fn body(message: ServerMessageView) -> Seq<u8> {
        server_body(message)
    }

    open spec fn parsed(body: Seq<u8>) -> Option<ServerMessageView> {
        whole(server_at(body), body.len())
    }

    fn to_document(&self) -> (document: Result<Document>) {
        let mut body: Vec<u8> = Vec::new();
        if !spell_server(self, &mut body) {
            return Err(too_long());
        }
        assert(body@ =~= server_body(self@));
        bound(body)
    }

    fn from_document(document: &Document) -> (message: Result<ServerMessage>) {
        match read_server(document.body.as_slice()) {
            Some((message, end)) => {
                if end == document.body.len() {
                    Ok(message)
                } else {
                    Err(unreadable())
                }
            },
            None => Err(unreadable()),
        }
    }

    proof fn lemma_round_trip(message: ServerMessageView) {
        lemma_server_at(message);
    }
}

/// What reading a typed message comes to, given what reading its document
/// comes to: a body must also spell a message.
pub open spec fn typed<M: Message>(given: core::result::Result<Seq<u8>, Failure>)
    -> core::result::Result<M::V, Failure> {
    match given {
        Ok(body) => match M::parsed(body) {
            Some(message) => Ok(message),
            None => Err(Failure::Malformed),
        },
        Err(failure) => Err(failure),
    }
}

/// Whether `read` hands out the given message, or fails in the given way.
pub open spec fn delivers_message<M: Message>(
    read: Result<M>,
    given: core::result::Result<M::V, Failure>,
) -> bool {
    match given {
        Ok(message) => read matches Ok(found) && found@ == message,
        Err(failure) => read matches Err(error) && crate::communication::bson::fails_as(
            error,
            failure,
        ),
    }
}

/// A message that is written and then read comes back as it was: its frame
/// announces its own length, holds the message's body, and the body spells
/// the message.
pub proof fn lemma_wire_round_trip<M: Message>(message: M::V)
    requires
        frameable(M::body(message)),
    ensures
        announced(framed(M::body(message))) == Some(framed(M::body(message)).len()),
        framing(framed(M::body(message))) == (Framing::Whole {
            size: framed(M::body(message)).len(),
        }),
        M::parsed(
            framed(M::body(message)).subrange(4, framed(M::body(message)).len() as int),
        ) == Some(message),
{
    lemma_frame_announces_its_length(M::body(message));
    M::lemma_round_trip(message);
}

/// A message that a writer has framed and that comes in one piece to a
/// scanner that holds nothing, and whose cap the frame does not exceed, is
/// what the scanner hands out.
pub proof fn lemma_message_arrives<M: Message>(message: M::V, capacity: nat)
    requires
        frameable(M::body(message)),
        framed(M::body(message)).len() <= capacity,
    ensures
        typed::<M>(arrival(Seq::empty(), capacity, Ok(framed(M::body(message)))).0) == Ok::<
            M::V,
            Failure,
        >(message),
        arrival(Seq::empty(), capacity, Ok(framed(M::body(message)))).1 == Seq::<u8>::empty(),
{
    lemma_frame_arrives(M::body(message), capacity);
    M::lemma_round_trip(message);
}

/// Turns messages into frames.
pub struct ArsonWriter {
    backend: BsonWriter,
}

impl ArsonWriter {
    /// A writer of messages.
    pub fn new() -> (writer: ArsonWriter) {
        ArsonWriter { backend: BsonWriter::new() }
    }
}

impl<M: Message> WriteMessage<M> for ArsonWriter {
    /// The frame of `message`, whole or not at all: the length of the frame
    /// and then the message's body. A message too long for a frame is
    /// refused.
    fn write_message(&mut self, message: &M) -> (frame: Result<Vec<u8>>)
        ensures
            match frame {
                Ok(bytes) => {
                    &&& frameable(M::body(message@))
                    &&& bytes@ == framed(M::body(message@))
                    &&& announced(bytes@) == Some(bytes@.len())
                },
                Err(error) => {
                    &&& !frameable(M::body(message@))
                    &&& error.kind == ErrorKind::MessageSizeExceeded
                },
            },
    {
        let document = message.to_document()?;
        self.backend.write_message(&document)
    }
}

/// Finds messages in what comes from a stream that does not wait.
pub struct ArsonScanner {
    backend: BsonScanner,
}

impl ArsonScanner {
    /// The scanner of documents underneath.
    pub closed spec fn backend(&self) -> BsonScanner {
        self.backend
    }

    /// A scanner with an empty buffer, for frames of at most `cap` bytes.
    pub fn new(cap: usize) -> (scanner: ArsonScanner)
        ensures
            scanner.backend().capacity() == cap,
            scanner.backend().buffered() == Seq::<u8>::empty(),
    {
        ArsonScanner { backend: BsonScanner::new(cap) }
    }

    /// How many bytes the next read may fetch.
    pub fn space_left(&self) -> (space: usize)
        ensures
            self.backend().buffered().len() <= self.backend().capacity(),
            space == self.backend().capacity() - self.backend().buffered().len(),
    {
        self.backend.space_left()
    }
}

impl<M: Message> ReadMessage<M> for ArsonScanner {
    /// Takes in what one read of the stream gave, and hands out the next
    /// message if its whole frame is there. A frame whose body spells no
    /// message is malformed; it leaves the buffer all the same.
    fn read_message(&mut self, incoming: core::result::Result<Vec<u8>, IoKind>) -> (read: Result<M>)
        ensures
            final(self).backend().capacity() == old(self).backend().capacity(),
            delivers_message::<M>(
                read,
                typed::<M>(
                    arrival(
                        old(self).backend().buffered(),
                        old(self).backend().capacity() as nat,
                        seen(incoming),
                    ).0,
                ),
            ),
            final(self).backend().buffered() == arrival(
                old(self).backend().buffered(),
                old(self).backend().capacity() as nat,
                seen(incoming),
            ).1,
    {
        let document = self.backend.read_message(incoming)?;
        M::from_document(&document)
    }
}

/// Reads messages one at a time from bytes that are all there.
pub struct ArsonReader {
    backend: BsonReader,
}

impl ArsonReader {
    /// The reader of documents underneath.
    pub closed spec fn backend(&self) -> BsonReader {
        self.backend
    }

    /// A reader that lets no message take more than `cap` bytes.
    pub fn new(cap: usize) -> (reader: ArsonReader)
        ensures
            reader.backend().stream().capacity() == cap,
            reader.backend().stream().offset() == 0,
    {
        ArsonReader { backend: BsonReader::new(cap) }
    }

    /// Reads the message in front of `reader` and says how many bytes its
    /// frame took. A frame whose body spells no message is malformed.
    pub fn read_message<M: Message>(&mut self, reader: &[u8]) -> (read: Result<(M, usize)>)
        ensures
            final(self).backend().stream().capacity() == old(self).backend().stream().capacity(),
            old(self).backend().stream().offset() <= old(self).backend().stream().capacity(),
            match reading(
                reader@,
                (old(self).backend().stream().capacity() - old(
                    self,
                ).backend().stream().offset()) as nat,
            ) {
                Reading::Ended => {
                    &&& read matches Err(error) && error.kind == ErrorKind::NothingToRead
                    &&& final(self).backend().stream().offset() == old(
                        self,
                    ).backend().stream().offset()
                },
                Reading::Capped => {
                    &&& read matches Err(error) && error.kind == (ErrorKind::Io {
                        source: IoKind::InvalidData,
                    })
                    &&& final(self).backend().stream().offset() == old(
                        self,
                    ).backend().stream().offset()
                },
                Reading::Malformed => {
                    &&& read matches Err(error) && error.kind is MalformedMessage
                    &&& final(self).backend().stream().offset() == old(
                        self,
                    ).backend().stream().offset()
                },
                Reading::Whole { size } => {
                    &&& final(self).backend().stream().offset() == 0
                    &&& match M::parsed(reader@.subrange(4, size as int)) {
                        Some(message) => read matches Ok((found, taken)) && found@ == message
                            && taken == size,
                        None => read matches Err(error) && error.kind is MalformedMessage,
                    }
                },
            },
    {
        let (document, taken) = self.backend.read_message(reader)?;
        let message = M::from_document(&document)?;
        Ok((message, taken))
    }
}

/// A text and a name within their bounds make a text message that fits in
/// one message, in either direction.
pub proof fn lemma_text_fits(text: Seq<char>, name: Seq<char>, time: i64)
    requires
        byte_len(text) <= MAXIMUM_TEXT_SIZE,
        byte_len(name) <= MAXIMUM_NAME_SIZE,
    ensures
        framed(client_body(ClientMessageView::Text { text })).len() <= MAXIMUM_MESSAGE_SIZE,
        framed(client_body(ClientMessageView::Rename { new_name: name })).len()
            <= MAXIMUM_MESSAGE_SIZE,
        framed(server_body(ServerMessageView::Text { text, name, time })).len()
            <= MAXIMUM_MESSAGE_SIZE,
{
    lemma_sizes(text, Seq::empty(), 0, time);
    lemma_sizes(name, Seq::empty(), 0, time);
    lemma_frame_announces_its_length(client_body(ClientMessageView::Text { text }));
    lemma_frame_announces_its_length(client_body(ClientMessageView::Rename { new_name: name }));
    lemma_frame_announces_its_length(server_body(ServerMessageView::Text { text, name, time }));
}

/// A file's name within its bound makes requests and the answers that agree
/// to them that fit in one message.
pub proof fn lemma_file_name_fits(name: Seq<char>, size: usize, id: usize)
    requires
        byte_len(name) <= MAXIMUM_FILE_NAME_SIZE,
    ensures
        framed(client_body(ClientMessageView::RequestFileUpload { name, size, id })).len()
            <= MAXIMUM_MESSAGE_SIZE,
        framed(client_body(ClientMessageView::RequestFileDownload { name })).len()
            <= MAXIMUM_MESSAGE_SIZE,
        framed(server_body(ServerMessageView::AgreeFileDownload { name, size, id })).len()
            <= MAXIMUM_MESSAGE_SIZE,
        framed(server_body(ServerMessageView::NewFile { name })).len() <= MAXIMUM_MESSAGE_SIZE,
{
    lemma_sizes(name, Seq::empty(), size as u64, 0);
    lemma_sizes(name, Seq::empty(), id as u64, 0);
    lemma_frame_announces_its_length(
        client_body(ClientMessageView::RequestFileUpload { name, size, id }),
    );
    lemma_frame_announces_its_length(client_body(ClientMessageView::RequestFileDownload { name }));
    lemma_frame_announces_its_length(
        server_body(ServerMessageView::AgreeFileDownload { name, size, id }),
    );
    lemma_frame_announces_its_length(server_body(ServerMessageView::NewFile { name }));
}

/// A chunk of at most `CHUNK_SIZE` bytes fits in one message, in either
/// direction.
pub proof fn lemma_chunk_fits(data: Seq<u8>, id: usize)
    requires
        data.len() <= CHUNK_SIZE,
    ensures
        framed(
            client_body(
                ClientMessageView::Common { common: CommonMessageView::Chunk { data, id } },
            ),
        ).len() <= MAXIMUM_MESSAGE_SIZE,
        framed(
            server_body(
                ServerMessageView::Common { common: CommonMessageView::Chunk { data, id } },
            ),
        ).len() <= MAXIMUM_MESSAGE_SIZE,
{
    let common = CommonMessageView::Chunk { data, id };
    lemma_sizes(Seq::empty(), data, id as u64, 0);
    lemma_frame_announces_its_length(client_body(ClientMessageView::Common { common }));
    lemma_frame_announces_its_length(server_body(ServerMessageView::Common { common }));
}

} // verus!
