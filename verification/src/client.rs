//! The client's side of the conversation: what it does with each message
//! of the server and with each command of the user.
//!
//! The caller owns the socket, the files and the console. It asks which
//! file a message or a command needs, does what is asked, and then has the
//! message or the command handled; what comes back says what to send and
//! what to show.

pub mod commands;

use crate::client::commands::{Command, CommandProcessing, CommandView};
use crate::clock::{local_time_text, now};
use crate::communication::{explain_common_error, explained, MessageProcessing};
use crate::connection::messages::{
    ClientMessage, ClientMessageView, CommonMessage, CommonMessageView, ServerMessage,
    ServerMessageView,
};
use crate::connection::{
    chunk_counted, completed, id_key, promoted, sending_started, transfer_dropped,
    transfer_opened, Context, FileRequest, FileRequestView, Opened,
};
use crate::errors::{is_would_block_error, Error, ErrorKind, IoKind, Result};
use vstd::prelude::*;
use vstd::string::*;

verus! {

/// How long the loop rests when a round has brought nothing, in
/// milliseconds.
pub const WAITING_DELAY_MILLIS: u64 = 16;

/// What the caller is to do after a message or a command has been handled.
#[derive(Debug)]
pub struct Effects {
    /// What is to be sent to the server.
    pub send: Option<ClientMessage>,
    /// The line that is to be shown to the user.
    pub print: Option<String>,
}

impl Effects {
    /// What is sent, as a value.
    pub open spec fn sent(&self) -> Option<ClientMessageView> {
        match self.send {
            Some(message) => Some(message@),
            None => None,
        }
    }

    /// What is shown, as characters.
    pub open spec fn shown(&self) -> Option<Seq<char>> {
        match self.print {
            Some(line) => Some(line@),
            None => None,
        }
    }

    /// Nothing is sent and nothing is shown.
    pub open spec fn none(&self) -> bool {
        self.send is None && self.print is None
    }

    /// Only `message` is sent.
    pub open spec fn sends(&self, message: ClientMessageView) -> bool {
        self.sent() == Some(message) && self.print is None
    }

    /// Only `line` is shown.
    pub open spec fn shows(&self, line: Seq<char>) -> bool {
        self.send is None && self.shown() == Some(line)
    }

    fn nothing() -> (effects: Effects)
        ensures
            effects.none(),
    {
        Effects { send: None, print: None }
    }

    fn sending(message: ClientMessage) -> (effects: Effects)
        ensures
            effects.sends(message@),
    {
        Effects { send: Some(message), print: None }
    }

    fn showing(line: String) -> (effects: Effects)
        ensures
            effects.shows(line@),
    {
        Effects { send: None, print: Some(line) }
    }
}

/// The line that tells of a download that is complete.
pub open spec fn line_downloaded(name: Seq<char>, path: Seq<char>) -> Seq<char> {
    "(Console) Downloaded "@ + name + " and saved to "@ + path
}

/// The line that tells of an upload that the server declines.
pub open spec fn line_upload_declined(name: Seq<char>, reason: Seq<char>) -> Seq<char> {
    "(Server) Nah, wait with your #"@ + name + ". "@ + reason
}

/// The line that tells of a download that the server declines.
pub open spec fn line_download_declined(name: Seq<char>, reason: Seq<char>) -> Seq<char> {
    "(Server) Nah, I won't give you "@ + name + ". "@ + reason
}

/// The line that tells of a failure to read from the server.
pub open spec fn line_read_failed(error: Error) -> Seq<char> {
    "(Server) Error > "@ + explained(error)
}

/// The line that tells the user to connect first.
pub open spec fn line_not_connected() -> Seq<char> {
    "(Console) Easy now! We should first establish a connection, all right? Go on, use /connect"@
}

/// The line that tells of a file to upload that is not there.
pub open spec fn line_no_file() -> Seq<char> {
    "(Console) No, I can't find such a file"@
}

/// The line that tells of a file to download to that is there already.
pub open spec fn line_file_exists() -> Seq<char> {
    "(Console) No, wait, the file already exists!"@
}

/// Counts a chunk of the server. When the download is complete with it,
/// the user is told.
pub fn handle_server_chunk<H>(session: &mut Context<H>, data: &[u8], id: usize) -> (effects:
    Effects)
    requires
        old(session).wf(),
    ensures
        chunk_counted(*old(session), *final(session), data@, id),
        match completed(*old(session), data@, id) {
            Some(sharer) => effects.shows(line_downloaded(sharer.name@, sharer.path@)),
            None => effects.none(),
        },
{
    proof {
        if old(session).reading(id_key(id)) is Some {
            old(session).lemma_reading_wf(id_key(id));
        }
    }
    let done = session.accept_chunk(data, id);
    if !done {
        return Effects::nothing();
    }
    match session.remove_sharer(id) {
        Some(sharer) => {
            let line = "(Console) Downloaded ".to_owned().concat(sharer.name.as_str()).concat(
                " and saved to ",
            ).concat(sharer.path.as_str());
            Effects::showing(line)
        },
        None => Effects::nothing(),
    }
}

/// Handles what either side may send: a chunk is counted.
pub fn handle_server_common_message<H>(session: &mut Context<H>, message: &CommonMessage)
    -> (effects: Effects)
    requires
        old(session).wf(),
    ensures
        match message {
            CommonMessage::Chunk { data, id } => {
                &&& chunk_counted(*old(session), *final(session), data@, *id)
                &&& match completed(*old(session), data@, *id) {
                    Some(sharer) => effects.shows(line_downloaded(sharer.name@, sharer.path@)),
                    None => effects.none(),
                }
            },
        },
{
    match message {
        CommonMessage::Chunk { data, id } => handle_server_chunk(session, data.as_slice(), *id),
    }
}

/// The server is ready for the upload: the transfer moves to those that
/// are being sent.
pub fn handle_server_agree_file_upload<H>(session: &mut Context<H>, id: usize) -> (effects:
    Effects)
    requires
        old(session).wf(),
    ensures
        sending_started(*old(session), *final(session), id),
        effects.none(),
{
    match session.remove_sharer(id) {
        Some(sharer) => {
            session.enqueu_sending_sharer(sharer);
        },
        None => {},
    }
    Effects::nothing()
}

/// The server declines the upload: the transfer is dropped, and the user
/// is told why, if there was such a transfer.
pub fn handle_server_decline_file_upload<H>(session: &mut Context<H>, id: usize, reason: &str)
    -> (effects: Effects)
    requires
        old(session).wf(),
    ensures
        transfer_dropped(*old(session), *final(session), id_key(id)),
        match old(session).reading(id_key(id)) {
            Some(sharer) => effects.shows(line_upload_declined(sharer.name@, reason@)),
            None => effects.none(),
        },
{
    match session.remove_sharer(id) {
        Some(sharer) => {
            let line = "(Server) Nah, wait with your #".to_owned().concat(
                sharer.name.as_str(),
            ).concat(". ").concat(reason);
            Effects::showing(line)
        },
        None => Effects::nothing(),
    }
}

/// The server is ready to send the file: the transfer that waits under the
/// file's name gets its size and id, and the server is told to go ahead.
pub fn handle_server_agree_file_download<H>(
    session: &mut Context<H>,
    name: &str,
    size: usize,
    id: usize,
) -> (effects: Effects)
    requires
        old(session).wf(),
    ensures
        promoted(*old(session), *final(session), name@, size, id),
        effects.sends(ClientMessageView::AgreeFileDownload { id }),
{
    session.promote_sharer(name, size, id);
    Effects::sending(ClientMessage::AgreeFileDownload { id })
}

/// The server declines the download: the transfer that waits under the
/// file's name is dropped, and the user is told why.
pub fn handle_server_decline_file_download<H>(session: &mut Context<H>, name: &str, reason: &str)
    -> (effects: Effects)
    requires
        old(session).wf(),
    ensures
        transfer_dropped(*old(session), *final(session), name@),
        effects.shows(line_download_declined(name@, reason@)),
{
    session.remove_unpromoted_sharer(name);
    let line = "(Server) Nah, I won't give you ".to_owned().concat(name).concat(". ").concat(
        reason,
    );
    Effects::showing(line)
}

/// What a message of the server comes to, kind by kind, when `stamp` is how
/// a point in time is written. What has to do with files is dealt with;
/// anything else is shown.
pub open spec fn message_handled<H>(
    before: Context<H>,
    after: Context<H>,
    message: ServerMessageView,
    stamp: Seq<char>,
    effects: Effects,
) -> bool {
    match message {
        ServerMessageView::Common { common: CommonMessageView::Chunk { data, id } } => {
            &&& chunk_counted(before, after, data, id)
            &&& match completed(before, data, id) {
                Some(sharer) => effects.shows(line_downloaded(sharer.name@, sharer.path@)),
                None => effects.none(),
            }
        },
        ServerMessageView::AgreeFileUpload { id } => {
            &&& sending_started(before, after, id)
            &&& effects.none()
        },
        ServerMessageView::DeclineFileUpload { id, reason } => {
            &&& transfer_dropped(before, after, id_key(id))
            &&& match before.reading(id_key(id)) {
                Some(sharer) => effects.shows(line_upload_declined(sharer.name@, reason)),
                None => effects.none(),
            }
        },
        ServerMessageView::AgreeFileDownload { name, size, id } => {
            &&& promoted(before, after, name, size, id)
            &&& effects.sends(ClientMessageView::AgreeFileDownload { id })
        },
        ServerMessageView::DeclineFileDownload { name, reason } => {
            &&& transfer_dropped(before, after, name)
            &&& effects.shows(line_download_declined(name, reason))
        },
        _ => {
            &&& after == before
            &&& effects.shows(ServerMessage::described_with(message, stamp))
        },
    }
}

/// Handles one message of the server, with `stamp` for its point in time
/// where it is shown.
pub fn handle_server_message_with<H>(
    session: &mut Context<H>,
    message: &ServerMessage,
    stamp: &str,
) -> (effects: Effects)
    requires
        old(session).wf(),
    ensures
        final(session).wf(),
        message_handled(*old(session), *final(session), message@, stamp@, effects),
{
    match message {
        ServerMessage::Common { common } => handle_server_common_message(session, common),
        ServerMessage::AgreeFileUpload { id } => handle_server_agree_file_upload(session, *id),
        ServerMessage::DeclineFileUpload { id, reason } => handle_server_decline_file_upload(
            session,
            *id,
            reason.as_str(),
        ),
        ServerMessage::AgreeFileDownload { name, size, id } => handle_server_agree_file_download(
            session,
            name.as_str(),
            *size,
            *id,
        ),
        ServerMessage::DeclineFileDownload { name, reason } => handle_server_decline_file_download(
            session,
            name.as_str(),
            reason.as_str(),
        ),
        _ => Effects::showing(message.describe_with(stamp)),
    }
}

/// Handles one message of the server. A text is shown with its point in
/// time as this machine's clock shows it.
pub fn handle_server_message<H>(session: &mut Context<H>, message: &ServerMessage) -> (effects:
    Effects)
    requires
        old(session).wf(),
    ensures
        final(session).wf(),
        exists|stamp: Seq<char>|
            message_handled(*old(session), *final(session), message@, stamp, effects),
{
    let stamp = match message {
        ServerMessage::Text { time, .. } => match local_time_text(*time) {
            Some(text) => text,
            None => String::new(),
        },
        _ => String::new(),
    };
    handle_server_message_with(session, message, stamp.as_str())
}

/// What the caller is to do with a file before a message of the server is
/// handled: the bytes of a chunk are to be stored, as far as its transfer
/// has room.
pub open spec fn file_asked<H>(session: Context<H>, message: ServerMessageView)
    -> FileRequestView {
    match message {
        ServerMessageView::Common { common: CommonMessageView::Chunk { data, id } } => {
            session.storing(data.len(), id)
        },
        _ => FileRequestView::Nothing,
    }
}

/// Says what the caller is to do with a file before `message` is handled.
pub fn file_request<H>(session: &Context<H>, message: &ServerMessage) -> (request: FileRequest)
    requires
        session.wf(),
    ensures
        request@ == file_asked(*session, message@),
{
    match message {
        ServerMessage::Common { common } => match common {
            CommonMessage::Chunk { data, id } => session.store_request(data.len(), *id),
        },
        _ => FileRequest::Nothing,
    }
}

/// What one try to read a message of the server comes to. A message is
/// handled. A read that would have had to wait changes nothing. Any other
/// failure to read ends the session, and the user is told.
pub open spec fn read_handled<H>(
    before: Context<H>,
    after: Context<H>,
    read: Result<ServerMessage>,
    stamp: Seq<char>,
    processing: MessageProcessing,
    effects: Effects,
) -> bool {
    match read {
        Ok(message) => {
            &&& processing == MessageProcessing::Proceed
            &&& message_handled(before, after, message@, stamp, effects)
        },
        Err(error) => {
            &&& after == before
            &&& if error.kind == (ErrorKind::Io { source: IoKind::WouldBlock }) {
                processing == MessageProcessing::ProceedButWaiting && effects.none()
            } else {
                processing == MessageProcessing::Stop && effects.shows(line_read_failed(error))
            }
        },
    }
}

/// Deals with what one try to read a message of the server gave.
pub fn read_and_handle_server_message<H>(session: &mut Context<H>, read: Result<ServerMessage>)
    -> (done: (MessageProcessing, Effects))
    requires
        old(session).wf(),
    ensures
        final(session).wf(),
        exists|stamp: Seq<char>|
            read_handled(*old(session), *final(session), read, stamp, done.0, done.1),
{
    let ghost stamp: Seq<char>;
    let done = match &read {
        Ok(message) => {
            let effects = handle_server_message(session, message);
            proof {
                stamp = choose|stamp: Seq<char>|
                    message_handled(*old(session), *session, message@, stamp, effects);
            }
            (MessageProcessing::Proceed, effects)
        },
        Err(error) => {
            proof {
                stamp = Seq::empty();
            }
            if is_would_block_error(error) {
                (MessageProcessing::ProceedButWaiting, Effects::nothing())
            } else {
                let explanation = explain_common_error(error);
                let line = "(Server) Error > ".to_owned().concat(explanation.as_str());
                (MessageProcessing::Stop, Effects::showing(line))
            }
        },
    };
    assert(read_handled(*old(session), *session, read, stamp, done.0, done.1));
    done
}

/// Sends a text.
pub fn perform_text(text: &str) -> (effects: Effects)
    ensures
        effects.sends(ClientMessageView::Text { text: text@ }),
{
    Effects::sending(ClientMessage::Text { text: text.to_owned() })
}

/// Sends a wish for a name.
pub fn perform_rename(new_name: &str) -> (effects: Effects)
    ensures
        effects.sends(ClientMessageView::Rename { new_name: new_name@ }),
{
    Effects::sending(ClientMessage::Rename { new_name: new_name.to_owned() })
}

/// What the wish to upload a file comes to. Where the caller could open the
/// file, a transfer with the session's next id is kept for it and the
/// server is asked to take it; where there is no such file, the user is
/// told so.
pub open spec fn upload_performed<H>(
    before: Context<H>,
    after: Context<H>,
    name: Seq<char>,
    path: Seq<char>,
    opened: Option<Opened<H>>,
    now: i64,
    effects: Effects,
) -> bool {
    match opened {
        Some(it) => {
            &&& transfer_opened(before, after, path, it.file, name, it.size, before.nexd_id, now)
            &&& after.nexd_id == before.nexd_id + 1
            &&& effects.sends(
                ClientMessageView::RequestFileUpload { name, size: it.size, id: before.nexd_id },
            )
        },
        None => after == before && effects.shows(line_no_file()),
    }
}

/// Starts the upload of the file at `path` under `name`. The session must
/// have an id left to give.
pub fn perform_upload_file<H>(
    session: &mut Context<H>,
    name: &str,
    path: &str,
    opened: Option<Opened<H>>,
    now: i64,
) -> (effects: Effects)
    requires
        old(session).wf(),
        old(session).nexd_id < usize::MAX,
    ensures
        final(session).wf(),
        upload_performed(*old(session), *final(session), name@, path@, opened, now, effects),
{
    match opened {
        Some(it) => {
            let id = session.free_id();
            session.open_sharer(path, it.file, name, it.size, id, now);
            Effects::sending(
                ClientMessage::RequestFileUpload { name: name.to_owned(), size: it.size, id },
            )
        },
        None => Effects::showing("(Console) No, I can't find such a file".to_owned()),
    }
}

/// What the wish to download a file comes to. Where the caller could create
/// the file to save to, a transfer waits under the file's name and the
/// server is asked for the file; where a file is there already, the user is
/// told so.
pub open spec fn download_performed<H>(
    before: Context<H>,
    after: Context<H>,
    name: Seq<char>,
    path: Seq<char>,
    opened: Option<Opened<H>>,
    now: i64,
    effects: Effects,
) -> bool {
    match opened {
        Some(it) => {
            &&& after.wf()
            &&& after.sending_sharers == before.sending_sharers
            &&& after.nexd_id == before.nexd_id
            &&& after.reading(name) matches Some(sharer) && {
                &&& sharer.name@ == name
                &&& sharer.path@ == path
                &&& sharer.file == it.file
                &&& sharer.size == 0
                &&& sharer.id == 0
                &&& sharer.written == 0
                &&& sharer.old_time_point == now
            }
            &&& forall|key: Seq<char>| key != name ==> after.reading(key) == before.reading(key)
            &&& effects.sends(ClientMessageView::RequestFileDownload { name })
        },
        None => after == before && effects.shows(line_file_exists()),
    }
}

/// Starts the download of `name` to the file at `path`.
pub fn perform_download_file<H>(
    session: &mut Context<H>,
    name: &str,
    path: &str,
    opened: Option<Opened<H>>,
    now: i64,
) -> (effects: Effects)
    requires
        old(session).wf(),
    ensures
        final(session).wf(),
        download_performed(*old(session), *final(session), name@, path@, opened, now, effects),
{
    match opened {
        Some(it) => {
            session.prepare_sharer(path, it.file, name, now);
            Effects::sending(ClientMessage::RequestFileDownload { name: name.to_owned() })
        },
        None => Effects::showing("(Console) No, wait, the file already exists!".to_owned()),
    }
}

/// What a command comes to on a connection.
pub open spec fn command_performed<H>(
    before: Context<H>,
    after: Context<H>,
    command: CommandView,
    opened: Option<Opened<H>>,
    now: i64,
    effects: Effects,
) -> bool {
    match command {
        CommandView::Text { text } => after == before && effects.sends(
            ClientMessageView::Text { text },
        ),
        CommandView::Rename { new_name } => after == before && effects.sends(
            ClientMessageView::Rename { new_name },
        ),
        CommandView::UploadFile { name, path } => upload_performed(
            before,
            after,
            name,
            path,
            opened,
            now,
            effects,
        ),
        CommandView::DownloadFile { name, path } => download_performed(
            before,
            after,
            name,
            path,
            opened,
            now,
            effects,
        ),
        _ => after == before && effects.none(),
    }
}

/// Carries out a command on a connection, which must have an id left to
/// give.
pub fn match_user_command_with_connection<H>(
    command: &Command,
    connection: &mut Context<H>,
    opened: Option<Opened<H>>,
    now: i64,
) -> (effects: Effects)
    requires
        old(connection).wf(),
        old(connection).nexd_id < usize::MAX,
    ensures
        final(connection).wf(),
        command_performed(*old(connection), *final(connection), command@, opened, now, effects),
{
    match command {
        Command::Text { text } => perform_text(text.as_str()),
        Command::Rename { new_name } => perform_rename(new_name.as_str()),
        Command::UploadFile { name, path } => perform_upload_file(
            connection,
            name.as_str(),
            path.as_str(),
            opened,
            now,
        ),
        Command::DownloadFile { name, path } => perform_download_file(
            connection,
            name.as_str(),
            path.as_str(),
            opened,
            now,
        ),
        _ => Effects::nothing(),
    }
}

/// What the caller is to do with a file before a command is handled: the
/// file to upload is to be opened, the file to download to is to be
/// created. Without a connection nothing is to be done.
pub open spec fn command_file_asked(command: CommandView, connected: bool) -> FileRequestView {
    if !connected {
        FileRequestView::Nothing
    } else {
        match command {
            CommandView::UploadFile { path, .. } => FileRequestView::Open { path },
            CommandView::DownloadFile { path, .. } => FileRequestView::Create { path },
            _ => FileRequestView::Nothing,
        }
    }
}

/// Says what the caller is to do with a file before `command` is handled.
pub fn command_file_request(command: &Command, connected: bool) -> (request: FileRequest)
    ensures
        request@ == command_file_asked(command@, connected),
{
    if !connected {
        return FileRequest::Nothing;
    }
    match command {
        Command::UploadFile { path, .. } => FileRequest::Open { path: path.clone() },
        Command::DownloadFile { path, .. } => FileRequest::Create { path: path.clone() },
        _ => FileRequest::Nothing,
    }
}

/// What a command of the user comes to. The end of the input ends the
/// session. A wish to connect is handed to the caller. Any other command
/// is carried out on the connection; without one the user is told to
/// connect first.
pub open spec fn command_handled<H>(
    before: Option<Context<H>>,
    after: Option<Context<H>>,
    command: CommandView,
    opened: Option<Opened<H>>,
    now: i64,
    processing: CommandProcessing,
    effects: Effects,
) -> bool {
    match command {
        CommandView::End => {
            &&& processing is Stop
            &&& after == before
            &&& effects.none()
        },
        CommandView::Connect { address } => {
            &&& processing matches CommandProcessing::Connect(to) && to@ == address
            &&& after == before
            &&& effects.none()
        },
        CommandView::Nothing => {
            &&& processing is Proceed
            &&& after == before
            &&& effects.none()
        },
        other => {
            &&& processing is Proceed
            &&& match before {
                Some(session) => after matches Some(session_after) && command_performed(
                    session,
                    session_after,
                    other,
                    opened,
                    now,
                    effects,
                ),
                None => after is None && effects.shows(line_not_connected()),
            }
        },
    }
}

/// Handles one command of the user at the given time. `connection` is the
/// session with the server, if there is one; `opened` is the file that the
/// caller has opened or created because the command asked for it, if it
/// could. A session must have an id left to give.
pub fn handle_user_command_at<H>(
    command: &Command,
    connection: &mut Option<Context<H>>,
    opened: Option<Opened<H>>,
    now: i64,
) -> (done: (CommandProcessing, Effects))
    requires
        *old(connection) matches Some(session) ==> session.wf() && session.nexd_id < usize::MAX,
    ensures
        *final(connection) matches Some(session) ==> session.wf(),
        command_handled(*old(connection), *final(connection), command@, opened, now, done.0, done.1),
{
    match command {
        Command::End => (CommandProcessing::Stop, Effects::nothing()),
        Command::Connect { address } => (
            CommandProcessing::Connect(address.clone()),
            Effects::nothing(),
        ),
        Command::Nothing => (CommandProcessing::Proceed, Effects::nothing()),
        other => match connection {
            Some(session) => {
                let effects = match_user_command_with_connection(other, session, opened, now);
                (CommandProcessing::Proceed, effects)
            },
            None => {
                let line =
                    "(Console) Easy now! We should first establish a connection, all right? Go on, use /connect".to_owned();
                (CommandProcessing::Proceed, Effects::showing(line))
            },
        },
    }
}

/// Handles one command of the user at the time at which it is called. A
/// session must have an id left to give.
pub fn handle_user_command<H>(
    command: &Command,
    connection: &mut Option<Context<H>>,
    opened: Option<Opened<H>>,
) -> (done: (CommandProcessing, Effects))
    requires
        *old(connection) matches Some(session) ==> session.wf() && session.nexd_id < usize::MAX,
    ensures
        *final(connection) matches Some(session) ==> session.wf(),
        exists|now: i64|
            command_handled(
                *old(connection),
                *final(connection),
                command@,
                opened,
                now,
                done.0,
                done.1,
            ),
{
    let time = now();
    handle_user_command_at(command, connection, opened, time)
}

/// What is sent when the loop ends: a leave, if there is a connection.
pub fn farewell<H>(connection: &Option<Context<H>>) -> (effects: Effects)
    ensures
        match connection {
            Some(_) => effects.sends(ClientMessageView::Leave),
            None => effects.none(),
        },
{
    match connection {
        Some(_) => Effects::sending(ClientMessage::Leave),
        None => Effects::nothing(),
    }
}

} // verus!
