//! The messages that the two sides send each other, and their bounds.

use crate::clock::local_time_text;
use crate::text::{decimal, decimal_digits};
use vstd::prelude::*;
use vstd::string::*;

verus! {

/// The most bytes that one message may have on the wire.
pub const MAXIMUM_MESSAGE_SIZE: usize = 1024;

/// What is set aside in a text message for all but its text and its name.
pub const MINIMUM_TEXT_MESSAGE_SIZE: usize = 52;

/// What a text message has room for: its text and its name together.
pub const MAXIMUM_TEXT_MESSAGE_CONTENT: usize = MAXIMUM_MESSAGE_SIZE - MINIMUM_TEXT_MESSAGE_SIZE;

/// The most bytes that a text may have.
pub const MAXIMUM_TEXT_SIZE: usize = MAXIMUM_TEXT_MESSAGE_CONTENT / 2;

/// The most bytes that a display name may have.
pub const MAXIMUM_NAME_SIZE: usize = MAXIMUM_TEXT_SIZE;

/// What is set aside in a request to upload for all but the file's name.
pub const MINIMUM_CLIENT_REQUEST_FILE_UPLOAD_SIZE: usize = 66;

/// The most bytes that a file's name may have.
pub const MAXIMUM_FILE_NAME_SIZE: usize = MAXIMUM_MESSAGE_SIZE
    - MINIMUM_CLIENT_REQUEST_FILE_UPLOAD_SIZE;

/// The most bytes of a file that one chunk carries.
pub const CHUNK_SIZE: usize = 100;

/// What either side may send.
#[derive(Debug)]
pub enum CommonMessage {
    /// A piece of the file of transfer `id`.
    Chunk { data: Vec<u8>, id: usize },
}

/// What a client sends.
#[derive(Debug)]
pub enum ClientMessage {
    Text { text: String },
    Leave,
    Rename { new_name: String },
    Common { common: CommonMessage },
    RequestFileUpload { name: String, size: usize, id: usize },
    RequestFileDownload { name: String },
    AgreeFileDownload { id: usize },
    DeclineFileDownload { id: usize },
}

/// What the server sends. Points in time are milliseconds since the epoch.
#[derive(Debug)]
pub enum ServerMessage {
    Text { text: String, name: String, time: i64 },
    NewUser { name: String, time: i64 },
    Interrupt { name: String, time: i64 },
    UserLeaves { name: String, time: i64 },
    Support { text: String },
    UserRenamed { old_name: String, new_name: String },
    NewFile { name: String },
    Common { common: CommonMessage },
    AgreeFileUpload { id: usize },
    DeclineFileUpload { id: usize, reason: String },
    AgreeFileDownload { name: String, size: usize, id: usize },
    DeclineFileDownload { name: String, reason: String },
}

/// A common message with its bytes as a sequence.
pub enum CommonMessageView {
    Chunk { data: Seq<u8>, id: usize },
}

/// A client's message with its texts as sequences of characters.
pub enum ClientMessageView {
    Text { text: Seq<char> },
    Leave,
    Rename { new_name: Seq<char> },
    Common { common: CommonMessageView },
    RequestFileUpload { name: Seq<char>, size: usize, id: usize },
    RequestFileDownload { name: Seq<char> },
    AgreeFileDownload { id: usize },
    DeclineFileDownload { id: usize },
}

/// A server's message with its texts as sequences of characters.
pub enum ServerMessageView {
    Text { text: Seq<char>, name: Seq<char>, time: i64 },
    NewUser { name: Seq<char>, time: i64 },
    Interrupt { name: Seq<char>, time: i64 },
    UserLeaves { name: Seq<char>, time: i64 },
    Support { text: Seq<char> },
    UserRenamed { old_name: Seq<char>, new_name: Seq<char> },
    NewFile { name: Seq<char> },
    Common { common: CommonMessageView },
    AgreeFileUpload { id: usize },
    DeclineFileUpload { id: usize, reason: Seq<char> },
    AgreeFileDownload { name: Seq<char>, size: usize, id: usize },
    DeclineFileDownload { name: Seq<char>, reason: Seq<char> },
}

impl View for CommonMessage {
    type V = CommonMessageView;

    open spec fn view(&self) -> CommonMessageView {
        match self {
            CommonMessage::Chunk { data, id } => CommonMessageView::Chunk { data: data@, id: *id },
        }
    }
}

impl View for ClientMessage {
    type V = ClientMessageView;

    open spec fn view(&self) -> ClientMessageView {
        match self {
            ClientMessage::Text { text } => ClientMessageView::Text { text: text@ },
            ClientMessage::Leave => ClientMessageView::Leave,
            ClientMessage::Rename { new_name } => ClientMessageView::Rename {
                new_name: new_name@,
            },
            ClientMessage::Common { common } => ClientMessageView::Common { common: common@ },
            ClientMessage::RequestFileUpload { name, size, id } => {
                ClientMessageView::RequestFileUpload { name: name@, size: *size, id: *id }
            },
            ClientMessage::RequestFileDownload { name } => ClientMessageView::RequestFileDownload {
                name: name@,
            },
            ClientMessage::AgreeFileDownload { id } => ClientMessageView::AgreeFileDownload {
                id: *id,
            },
            ClientMessage::DeclineFileDownload { id } => ClientMessageView::DeclineFileDownload {
                id: *id,
            },
        }
    }
}

impl View for ServerMessage {
    type V = ServerMessageView;

    open spec fn view(&self) -> ServerMessageView {
        match self {
            ServerMessage::Text { text, name, time } => ServerMessageView::Text {
                text: text@,
                name: name@,
                time: *time,
            },
            ServerMessage::NewUser { name, time } => ServerMessageView::NewUser {
                name: name@,
                time: *time,
            },
            ServerMessage::Interrupt { name, time } => ServerMessageView::Interrupt {
                name: name@,
                time: *time,
            },
            ServerMessage::UserLeaves { name, time } => ServerMessageView::UserLeaves {
                name: name@,
                time: *time,
            },
            ServerMessage::Support { text } => ServerMessageView::Support { text: text@ },
            ServerMessage::UserRenamed { old_name, new_name } => ServerMessageView::UserRenamed {
                old_name: old_name@,
                new_name: new_name@,
            },
            ServerMessage::NewFile { name } => ServerMessageView::NewFile { name: name@ },
            ServerMessage::Common { common } => ServerMessageView::Common { common: common@ },
            ServerMessage::AgreeFileUpload { id } => ServerMessageView::AgreeFileUpload { id: *id },
            ServerMessage::DeclineFileUpload { id, reason } => {
                ServerMessageView::DeclineFileUpload { id: *id, reason: reason@ }
            },
            ServerMessage::AgreeFileDownload { name, size, id } => {
                ServerMessageView::AgreeFileDownload { name: name@, size: *size, id: *id }
            },
            ServerMessage::DeclineFileDownload { name, reason } => {
                ServerMessageView::DeclineFileDownload { name: name@, reason: reason@ }
            },
        }
    }
}

impl CommonMessage {
    /// The same message once more.
    pub fn copy(&self) -> (twin: CommonMessage)
        ensures
            twin@ == self@,
    {
        match self {
            CommonMessage::Chunk { data, id } => CommonMessage::Chunk {
                data: data.clone(),
                id: *id,
            },
        }
    }
}

impl ClientMessage {
    /// The same message once more.
    pub fn copy(&self) -> (twin: ClientMessage)
        ensures
            twin@ == self@,
    {
        match self {
            ClientMessage::Text { text } => ClientMessage::Text { text: text.clone() },
            ClientMessage::Leave => ClientMessage::Leave,
            ClientMessage::Rename { new_name } => ClientMessage::Rename {
                new_name: new_name.clone(),
            },
            ClientMessage::Common { common } => ClientMessage::Common { common: common.copy() },
            ClientMessage::RequestFileUpload { name, size, id } => {
                ClientMessage::RequestFileUpload { name: name.clone(), size: *size, id: *id }
            },
            ClientMessage::RequestFileDownload { name } => ClientMessage::RequestFileDownload {
                name: name.clone(),
            },
            ClientMessage::AgreeFileDownload { id } => ClientMessage::AgreeFileDownload { id: *id },
            ClientMessage::DeclineFileDownload { id } => ClientMessage::DeclineFileDownload {
                id: *id,
            },
        }
    }
}

impl ServerMessage {
    /// The same message once more.
    pub fn copy(&self) -> (twin: ServerMessage)
        ensures
            twin@ == self@,
    {
        match self {
            ServerMessage::Text { text, name, time } => ServerMessage::Text {
                text: text.clone(),
                name: name.clone(),
                time: *time,
            },
            ServerMessage::NewUser { name, time } => ServerMessage::NewUser {
                name: name.clone(),
                time: *time,
            },
            ServerMessage::Interrupt { name, time } => ServerMessage::Interrupt {
                name: name.clone(),
                time: *time,
            },
            ServerMessage::UserLeaves { name, time } => ServerMessage::UserLeaves {
                name: name.clone(),
                time: *time,
            },
            ServerMessage::Support { text } => ServerMessage::Support { text: text.clone() },
            ServerMessage::UserRenamed { old_name, new_name } => ServerMessage::UserRenamed {
                old_name: old_name.clone(),
                new_name: new_name.clone(),
            },
            ServerMessage::NewFile { name } => ServerMessage::NewFile { name: name.clone() },
            ServerMessage::Common { common } => ServerMessage::Common { common: common.copy() },
            ServerMessage::AgreeFileUpload { id } => ServerMessage::AgreeFileUpload { id: *id },
            ServerMessage::DeclineFileUpload { id, reason } => ServerMessage::DeclineFileUpload {
                id: *id,
                reason: reason.clone(),
            },
            ServerMessage::AgreeFileDownload { name, size, id } => {
                ServerMessage::AgreeFileDownload { name: name.clone(), size: *size, id: *id }
            },
            ServerMessage::DeclineFileDownload { name, reason } => {
                ServerMessage::DeclineFileDownload { name: name.clone(), reason: reason.clone() }
            },
        }
    }
}

impl ServerMessage {
    /// The line that shows the message, when `stamp` is how its point in
    /// time is written.
    pub open spec fn described_with(message: ServerMessageView, stamp: Seq<char>) -> Seq<char> {
        match message {
            ServerMessageView::Text { text, name, .. } => "<"@ + stamp + "> ["@ + name + "] "@
                + text,
            ServerMessageView::NewUser { name, .. } => "~~ Meet our new mate: "@ + name + " ~~"@,
            ServerMessageView::Interrupt { name, .. } => "~~ Press F, "@ + name + " ~~"@,
            ServerMessageView::UserLeaves { name, .. } => "~~ "@ + name + " leaves the party ~~"@,
            ServerMessageView::Support { text } => "(Server) "@ + text,
            ServerMessageView::UserRenamed { old_name, new_name } => {
                "~~ He once used to be "@ + old_name + ", but now he is "@ + new_name + " ~~"@
            },
            ServerMessageView::NewFile { name } => "~~ And the new file is "@ + name + " ~~"@,
            ServerMessageView::AgreeFileUpload { id } => "(Server) Sure, I'm ready to accept #"@
                + decimal_digits(id as nat),
            ServerMessageView::DeclineFileUpload { id, reason } => "(Server) Nah, wait with your #"@
                + decimal_digits(id as nat) + ". "@ + reason,
            ServerMessageView::AgreeFileDownload { name, size, id } => {
                "(Server) Sure, I'm ready to give you "@ + name + " ("@ + decimal_digits(
                    size as nat,
                ) + " bytes, #"@ + decimal_digits(id as nat) + ")"@
            },
            ServerMessageView::DeclineFileDownload { name, reason } => {
                "(Server) Nah, I won't give you "@ + name + ". "@ + reason
            },
            ServerMessageView::Common { .. } => "(Server) Here are some bytes for you"@,
        }
    }

    /// The line that shows the message, with `stamp` for its point in time.
    pub fn describe_with(&self, stamp: &str) -> (line: String)
        ensures
            line@ == Self::described_with(self@, stamp@),
    {
        match self {
            ServerMessage::Text { text, name, .. } => "<".to_owned().concat(stamp).concat(
                "> [",
            ).concat(name.as_str()).concat("] ").concat(text.as_str()),
            ServerMessage::NewUser { name, .. } => "~~ Meet our new mate: ".to_owned().concat(
                name.as_str(),
            ).concat(" ~~"),
            ServerMessage::Interrupt { name, .. } => "~~ Press F, ".to_owned().concat(
                name.as_str(),
            ).concat(" ~~"),
            ServerMessage::UserLeaves { name, .. } => "~~ ".to_owned().concat(
                name.as_str(),
            ).concat(" leaves the party ~~"),
            ServerMessage::Support { text } => "(Server) ".to_owned().concat(text.as_str()),
            ServerMessage::UserRenamed { old_name, new_name } => {
                "~~ He once used to be ".to_owned().concat(old_name.as_str()).concat(
                    ", but now he is ",
                ).concat(new_name.as_str()).concat(" ~~")
            },
            ServerMessage::NewFile { name } => "~~ And the new file is ".to_owned().concat(
                name.as_str(),
            ).concat(" ~~"),
            ServerMessage::AgreeFileUpload { id } => {
                "(Server) Sure, I'm ready to accept #".to_owned().concat(decimal(*id).as_str())
            },
            ServerMessage::DeclineFileUpload { id, reason } => {
                "(Server) Nah, wait with your #".to_owned().concat(decimal(*id).as_str()).concat(
                    ". ",
                ).concat(reason.as_str())
            },
            ServerMessage::AgreeFileDownload { name, size, id } => {
                "(Server) Sure, I'm ready to give you ".to_owned().concat(name.as_str()).concat(
                    " (",
                ).concat(decimal(*size).as_str()).concat(" bytes, #").concat(
                    decimal(*id).as_str(),
                ).concat(")")
            },
            ServerMessage::DeclineFileDownload { name, reason } => {
                "(Server) Nah, I won't give you ".to_owned().concat(name.as_str()).concat(
                    ". ",
                ).concat(reason.as_str())
            },
            ServerMessage::Common { .. } => "(Server) Here are some bytes for you".to_owned(),
        }
    }

    /// The line that shows the message. A text's point in time is written
    /// as this machine's clock shows it, and is left empty where the clock
    /// cannot show it.
    pub fn describe(&self) -> (line: String)
        ensures
            exists|stamp: Seq<char>| line@ == Self::described_with(self@, stamp),
            !(self is Text) ==> line@ == Self::described_with(self@, Seq::empty()),
    {
        match self {
            ServerMessage::Text { time, .. } => {
                let stamp = match local_time_text(*time) {
                    Some(text) => text,
                    None => String::new(),
                };
                self.describe_with(stamp.as_str())
            },
            _ => {
                let stamp = String::new();
                self.describe_with(stamp.as_str())
            },
        }
    }
}

} // verus!
