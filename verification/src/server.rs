//! The server's side of the conversation: what it does with each message
//! of a client.
//!
//! The caller owns the sockets and the files. It reads a message, asks
//! which file the message needs, does what is asked, and then has the
//! message handled; what comes back says what to send, to whom, and
//! whether the session goes on.

pub mod connection;

use crate::communication::MessageProcessing;
use crate::connection::messages::{
    ClientMessage, CommonMessage, ServerMessage, ServerMessageView, MAXIMUM_FILE_NAME_SIZE,
    MAXIMUM_NAME_SIZE, MAXIMUM_TEXT_SIZE,
};
use crate::connection::sharers::at_most;
use crate::clock::now;
use crate::connection::messages::{ClientMessageView, CommonMessageView};
use crate::connection::{
    chunk_counted, completed, id_key, sending_started, transfer_dropped, transfer_opened, Context,
    FileRequest, FileRequestView, Opened,
};
use crate::errors::{is_would_block_error, ErrorKind, IoKind, Result};
use crate::server::connection::{
    accepted, distinct, forbidden, holds, name_of, reason_forbidden, reason_taken, reply, taken, Outgoing,
    RenameResult, ServerContext,
};
use crate::text::{byte_len, text_len};
use vstd::prelude::*;
use vstd::string::*;

verus! {

/// How long the loop rests when a round has brought nothing, in
/// milliseconds.
pub const WAITING_DELAY_MILLIS: u64 = 16;

/// What handling one message comes to.
#[derive(Debug)]
pub struct Reaction {
    /// Whether the session goes on.
    pub processing: MessageProcessing,
    /// What is to be sent, in this order.
    pub outgoing: Vec<Outgoing>,
}

impl Reaction {
    /// Nothing is sent.
    pub open spec fn silent(&self, processing: MessageProcessing) -> bool {
        self.processing == processing && self.outgoing@.len() == 0
    }

    /// One message is sent, to the given peers.
    pub open spec fn says(
        &self,
        processing: MessageProcessing,
        recipients: Seq<Seq<char>>,
        message: ServerMessageView,
    ) -> bool {
        &&& self.processing == processing
        &&& self.outgoing@.len() == 1
        &&& self.outgoing@[0].is(recipients, message)
    }

    fn nothing(processing: MessageProcessing) -> (reaction: Reaction)
        ensures
            reaction.silent(processing),
    {
        Reaction { processing, outgoing: Vec::new() }
    }

    fn one(processing: MessageProcessing, outgoing: Outgoing) -> (reaction: Reaction)
        ensures
            reaction.processing == processing,
            reaction.outgoing@ == seq![outgoing],
    {
        let mut all: Vec<Outgoing> = Vec::new();
        all.push(outgoing);
        Reaction { processing, outgoing: all }
    }
}

/// Why an upload is declined.
pub open spec fn reason_file_exists() -> Seq<char> {
    "There's already a file with such a name"@
}

/// Why a download is declined.
pub open spec fn reason_no_file() -> Seq<char> {
    "There's no such a file"@
}

/// What the server says to a peer that has just connected.
pub open spec fn welcome() -> Seq<char> {
    "Welcome to the club, mate"@
}

/// The directory after the peer at `address` has gone: it is not connected
/// and holds no name; nothing else has changed.
pub open spec fn gone<K>(before: ServerContext<K>, after: ServerContext<K>, address: Seq<char>)
    -> bool {
    &&& after.wf()
    &&& !after.connected(address)
    &&& !after.clients.keys().contains(address)
    &&& after.names.lookup(address) is None
    &&& forall|other: Seq<char>|
        other != address ==> after.clients.lookup(other) == before.clients.lookup(other)
            && after.names.lookup(other) == before.names.lookup(other)
    &&& after.clients.keys() == match before.clients.position(address) {
        Some(at) => before.clients.keys().remove(at),
        None => before.clients.keys(),
    }
}

/// The peer at `address` is cut off: it has gone, and those who stay are
/// told so, under the name that it had.
pub open spec fn interrupted<K>(
    before: ServerContext<K>,
    after: ServerContext<K>,
    address: Seq<char>,
    time: i64,
    reaction: Reaction,
) -> bool {
    &&& gone(before, after, address)
    &&& reaction.says(
        MessageProcessing::Stop,
        after.clients.keys(),
        ServerMessageView::Interrupt { name: name_of(before.names, address), time },
    )
}

/// Cuts the peer at `address` off and tells those who stay.
pub fn broadcast_interupt<K>(server: &mut ServerContext<K>, address: &str, time: i64) -> (reaction:
    Reaction)
    requires
        old(server).wf(),
    ensures
        interrupted(*old(server), *final(server), address@, time, reaction),
{
    let name = server.name(address);
    server.remove_from_clients(address);
    let message = ServerMessage::Interrupt { name, time };
    Reaction::one(MessageProcessing::Stop, server.broadcast(&message))
}

/// What happens to a peer that sends a text, a name or a file's name above
/// its bound: it is cut off.
pub fn handle_upper_bound_violation<K>(
    server: &mut ServerContext<K>,
    address: &str,
    time: i64,
) -> (reaction: Reaction)
    requires
        old(server).wf(),
    ensures
        interrupted(*old(server), *final(server), address@, time, reaction),
{
    broadcast_interupt(server, address, time)
}

/// What a text comes to: within the bound it goes to everyone, the sender
/// too, under the sender's name; above the bound the sender is cut off.
pub open spec fn text_handled<K>(
    before: ServerContext<K>,
    after: ServerContext<K>,
    address: Seq<char>,
    text: Seq<char>,
    time: i64,
    reaction: Reaction,
) -> bool {
    if byte_len(text) > MAXIMUM_TEXT_SIZE {
        interrupted(before, after, address, time, reaction)
    } else {
        &&& after == before
        &&& reaction.says(
            MessageProcessing::Proceed,
            before.clients.keys(),
            ServerMessageView::Text { text, name: name_of(before.names, address), time },
        )
    }
}

/// Handles a text of the peer at `address`.
pub fn handle_client_text<K>(
    server: &mut ServerContext<K>,
    address: &str,
    text: &str,
    time: i64,
) -> (reaction: Reaction)
    requires
        old(server).wf(),
    ensures
        final(server).wf(),
        text_handled(*old(server), *final(server), address@, text@, time, reaction),
{
    if text_len(text) > MAXIMUM_TEXT_SIZE {
        return handle_upper_bound_violation(server, address, time);
    }
    let name = server.name(address);
    let message = ServerMessage::Text { text: text.to_owned(), name, time };
    Reaction::one(MessageProcessing::Proceed, server.broadcast(&message))
}

/// What a leave comes to: the peer has gone, and those who stay are told
/// so, under the name that it had.
pub open spec fn leave_handled<K>(
    before: ServerContext<K>,
    after: ServerContext<K>,
    address: Seq<char>,
    time: i64,
    reaction: Reaction,
) -> bool {
    &&& gone(before, after, address)
    &&& reaction.says(
        MessageProcessing::Stop,
        after.clients.keys(),
        ServerMessageView::UserLeaves { name: name_of(before.names, address), time },
    )
}

/// Handles the leave of the peer at `address`.
pub fn handle_client_leave<K>(server: &mut ServerContext<K>, address: &str, time: i64) -> (reaction:
    Reaction)
    requires
        old(server).wf(),
    ensures
        leave_handled(*old(server), *final(server), address@, time, reaction),
{
    let name = server.name(address);
    server.remove_from_clients(address);
    let message = ServerMessage::UserLeaves { name, time };
    Reaction::one(MessageProcessing::Stop, server.broadcast(&message))
}

/// What a wish for a name comes to. Above the bound the peer is cut off. A
/// name with a dot or a colon, or one that another peer holds, is refused,
/// and the peer alone is told why. Any other name is the peer's from then
/// on, and everyone is told.
pub open spec fn rename_handled<K>(
    before: ServerContext<K>,
    after: ServerContext<K>,
    address: Seq<char>,
    new_name: Seq<char>,
    time: i64,
    reaction: Reaction,
) -> bool {
    if byte_len(new_name) > MAXIMUM_NAME_SIZE {
        interrupted(before, after, address, time, reaction)
    } else if forbidden(new_name) {
        &&& after == before
        &&& reaction.says(
            MessageProcessing::Proceed,
            seq![address],
            ServerMessageView::Support { text: reason_forbidden() },
        )
    } else if taken(before.names, address, new_name) {
        &&& after == before
        &&& reaction.says(
            MessageProcessing::Proceed,
            seq![address],
            ServerMessageView::Support { text: reason_taken() },
        )
    } else {
        &&& after.wf()
        &&& after.clients == before.clients
        &&& name_of(after.names, address) == new_name
        &&& forall|other: Seq<char>|
            other != address ==> after.names.lookup(other) == before.names.lookup(other)
        &&& reaction.says(
            MessageProcessing::Proceed,
            before.clients.keys(),
            ServerMessageView::UserRenamed {
                old_name: name_of(before.names, address),
                new_name,
            },
        )
    }
}

/// Handles the wish of the peer at `address` for a name.
pub fn handle_client_rename<K>(
    server: &mut ServerContext<K>,
    address: &str,
    new_name: &str,
    time: i64,
) -> (reaction: Reaction)
    requires
        old(server).wf(),
    ensures
        final(server).wf(),
        rename_handled(*old(server), *final(server), address@, new_name@, time, reaction),
{
    if text_len(new_name) > MAXIMUM_NAME_SIZE {
        return handle_upper_bound_violation(server, address, time);
    }
    match server.rename(address, new_name) {
        RenameResult::Success { old_name, new_name } => {
            let message = ServerMessage::UserRenamed { old_name, new_name };
            Reaction::one(MessageProcessing::Proceed, server.broadcast(&message))
        },
        RenameResult::Failure { reason } => {
            let message = ServerMessage::Support { text: reason };
            Reaction::one(MessageProcessing::Proceed, reply(address, message))
        },
    }
}

/// What a request to upload comes to. A file's name above the bound cuts
/// the peer off. Where the caller could create the file, a transfer is kept
/// for it and the peer is told to send; where it could not, because a file
/// of that name is there, the peer is told so.
pub open spec fn upload_handled<H, K>(
    before: ServerContext<K>,
    after: ServerContext<K>,
    session: Context<H>,
    session_after: Context<H>,
    address: Seq<char>,
    name: Seq<char>,
    size: usize,
    id: usize,
    opened: Option<Opened<H>>,
    time: i64,
    reaction: Reaction,
) -> bool {
    if byte_len(name) > MAXIMUM_FILE_NAME_SIZE {
        &&& interrupted(before, after, address, time, reaction)
        &&& session_after == session
    } else {
        &&& after == before
        &&& match opened {
            Some(it) => {
                &&& transfer_opened(session, session_after, name, it.file, name, size, id, time)
                &&& session_after.nexd_id == session.nexd_id
                &&& reaction.says(
                    MessageProcessing::Proceed,
                    seq![address],
                    ServerMessageView::AgreeFileUpload { id },
                )
            },
            None => {
                &&& session_after == session
                &&& reaction.says(
                    MessageProcessing::Proceed,
                    seq![address],
                    ServerMessageView::DeclineFileUpload { id, reason: reason_file_exists() },
                )
            },
        }
    }
}

/// Handles the request of the peer at `address` to upload a file.
pub fn handle_client_request_file_upload<H, K>(
    server: &mut ServerContext<K>,
    session: &mut Context<H>,
    address: &str,
    name: &str,
    size: usize,
    id: usize,
    opened: Option<Opened<H>>,
    time: i64,
) -> (reaction: Reaction)
    requires
        old(server).wf(),
        old(session).wf(),
    ensures
        final(server).wf(),
        final(session).wf(),
        upload_handled(
            *old(server),
            *final(server),
            *old(session),
            *final(session),
            address@,
            name@,
            size,
            id,
            opened,
            time,
            reaction,
        ),
{
    if text_len(name) > MAXIMUM_FILE_NAME_SIZE {
        return handle_upper_bound_violation(server, address, time);
    }
    let response = match opened {
        Some(it) => {
            session.open_sharer(name, it.file, name, size, id, time);
            ServerMessage::AgreeFileUpload { id }
        },
        None => ServerMessage::DeclineFileUpload {
            id,
            reason: "There's already a file with such a name".to_owned(),
        },
    };
    Reaction::one(MessageProcessing::Proceed, reply(address, response))
}

/// What a request to download comes to. A file's name above the bound cuts
/// the peer off. Where the caller could open the file, a transfer with the
/// session's next id is kept for it and the peer is told its size and id;
/// where there is no such file, the peer is told so.
pub open spec fn download_handled<H, K>(
    before: ServerContext<K>,
    after: ServerContext<K>,
    session: Context<H>,
    session_after: Context<H>,
    address: Seq<char>,
    name: Seq<char>,
    opened: Option<Opened<H>>,
    time: i64,
    reaction: Reaction,
) -> bool {
    if byte_len(name) > MAXIMUM_FILE_NAME_SIZE {
        &&& interrupted(before, after, address, time, reaction)
        &&& session_after == session
    } else {
        &&& after == before
        &&& match opened {
            Some(it) => {
                &&& transfer_opened(
                    session,
                    session_after,
                    name,
                    it.file,
                    name,
                    it.size,
                    session.nexd_id,
                    time,
                )
                &&& session_after.nexd_id == session.nexd_id + 1
                &&& reaction.says(
                    MessageProcessing::Proceed,
                    seq![address],
                    ServerMessageView::AgreeFileDownload {
                        name,
                        size: it.size,
                        id: session.nexd_id,
                    },
                )
            },
            None => {
                &&& session_after == session
                &&& reaction.says(
                    MessageProcessing::Proceed,
                    seq![address],
                    ServerMessageView::DeclineFileDownload { name, reason: reason_no_file() },
                )
            },
        }
    }
}

/// Handles the request of the peer at `address` to download a file. The
/// session must have an id left to give.
pub fn handle_client_request_file_download<H, K>(
    server: &mut ServerContext<K>,
    session: &mut Context<H>,
    address: &str,
    name: &str,
    opened: Option<Opened<H>>,
    time: i64,
) -> (reaction: Reaction)
    requires
        old(server).wf(),
        old(session).wf(),
        old(session).nexd_id < usize::MAX,
    ensures
        final(server).wf(),
        final(session).wf(),
        download_handled(
            *old(server),
            *final(server),
            *old(session),
            *final(session),
            address@,
            name@,
            opened,
            time,
            reaction,
        ),
{
    if text_len(name) > MAXIMUM_FILE_NAME_SIZE {
        return handle_upper_bound_violation(server, address, time);
    }
    let response = match opened {
        Some(it) => {
            let id = session.free_id();
            session.open_sharer(name, it.file, name, it.size, id, time);
            ServerMessage::AgreeFileDownload { name: name.to_owned(), size: it.size, id }
        },
        None => ServerMessage::DeclineFileDownload {
            name: name.to_owned(),
            reason: "There's no such a file".to_owned(),
        },
    };
    Reaction::one(MessageProcessing::Proceed, reply(address, response))
}

/// The peer is ready to take the file: the transfer moves to those that
/// are being sent.
pub fn handle_client_agree_file_download<H>(session: &mut Context<H>, id: usize) -> (reaction:
    Reaction)
    requires
        old(session).wf(),
    ensures
        sending_started(*old(session), *final(session), id),
        reaction.silent(MessageProcessing::Proceed),
{
    match session.remove_sharer(id) {
        Some(sharer) => {
            session.enqueu_sending_sharer(sharer);
        },
        None => {},
    }
    Reaction::nothing(MessageProcessing::Proceed)
}

/// The peer does not want the file after all: the transfer is dropped.
pub fn handle_client_decline_file_download<H>(session: &mut Context<H>, id: usize) -> (reaction:
    Reaction)
    requires
        old(session).wf(),
    ensures
        transfer_dropped(*old(session), *final(session), id_key(id)),
        reaction.silent(MessageProcessing::Proceed),
{
    session.remove_sharer(id);
    Reaction::nothing(MessageProcessing::Proceed)
}

/// What a chunk comes to. Its bytes count for the transfer of its id, as
/// far as the transfer has room. A transfer that is complete with them is
/// taken out, and everyone is told of the new file; one that is not stays.
/// A chunk for a transfer that is not kept changes nothing.
pub open spec fn chunk_handled<H, K>(
    server: ServerContext<K>,
    before: Context<H>,
    after: Context<H>,
    data: Seq<u8>,
    id: usize,
    reaction: Reaction,
) -> bool {
    &&& chunk_counted(before, after, data, id)
    &&& match completed(before, data, id) {
        Some(sharer) => reaction.says(
            MessageProcessing::Proceed,
            server.clients.keys(),
            ServerMessageView::NewFile { name: sharer.name@ },
        ),
        None => reaction.silent(MessageProcessing::Proceed),
    }
}

/// Handles a chunk of an upload.
pub fn handle_client_chunk<H, K>(
    server: &ServerContext<K>,
    session: &mut Context<H>,
    data: &[u8],
    id: usize,
) -> (reaction: Reaction)
    requires
        server.wf(),
        old(session).wf(),
    ensures
        chunk_handled(*server, *old(session), *final(session), data@, id, reaction),
{
    proof {
        if old(session).reading(id_key(id)) is Some {
            old(session).lemma_reading_wf(id_key(id));
        }
    }
    let done = session.accept_chunk(data, id);
    if !done {
        return Reaction::nothing(MessageProcessing::Proceed);
    }
    match session.remove_sharer(id) {
        Some(sharer) => {
            let message = ServerMessage::NewFile { name: sharer.name };
            Reaction::one(MessageProcessing::Proceed, server.broadcast(&message))
        },
        None => Reaction::nothing(MessageProcessing::Proceed),
    }
}

/// Handles what either side may send: a chunk is counted.
pub fn handle_client_common_message<H, K>(
    server: &ServerContext<K>,
    session: &mut Context<H>,
    message: &CommonMessage,
) -> (reaction: Reaction)
    requires
        server.wf(),
        old(session).wf(),
    ensures
        match message {
            CommonMessage::Chunk { data, id } => chunk_handled(
                *server,
                *old(session),
                *final(session),
                data@,
                *id,
                reaction,
            ),
        },
{
    match message {
        CommonMessage::Chunk { data, id } => handle_client_chunk(
            server,
            session,
            data.as_slice(),
            *id,
        ),
    }
}

/// What the caller is to do with a file before the message is handled. A
/// request to upload asks for the file to be created, one to download for
/// it to be opened, unless the file's name is above its bound. A chunk asks
/// for its bytes to be stored, as far as its transfer has room.
pub open spec fn file_asked<H>(session: Context<H>, message: ClientMessageView)
    -> FileRequestView {
    match message {
        ClientMessageView::RequestFileUpload { name, .. } => if byte_len(name)
            > MAXIMUM_FILE_NAME_SIZE {
            FileRequestView::Nothing
        } else {
            FileRequestView::Create { path: name }
        },
        ClientMessageView::RequestFileDownload { name } => if byte_len(name)
            > MAXIMUM_FILE_NAME_SIZE {
            FileRequestView::Nothing
        } else {
            FileRequestView::Open { path: name }
        },
        ClientMessageView::Common { common: CommonMessageView::Chunk { data, id } } => {
            session.storing(data.len(), id)
        },
        _ => FileRequestView::Nothing,
    }
}

/// Says what the caller is to do with a file before `message` is handled.
pub fn file_request<H>(session: &Context<H>, message: &ClientMessage) -> (request: FileRequest)
    requires
        session.wf(),
    ensures
        request@ == file_asked(*session, message@),
{
    match message {
        ClientMessage::RequestFileUpload { name, .. } => {
            if text_len(name.as_str()) > MAXIMUM_FILE_NAME_SIZE {
                FileRequest::Nothing
            } else {
                FileRequest::Create { path: name.clone() }
            }
        },
        ClientMessage::RequestFileDownload { name } => {
            if text_len(name.as_str()) > MAXIMUM_FILE_NAME_SIZE {
                FileRequest::Nothing
            } else {
                FileRequest::Open { path: name.clone() }
            }
        },
        ClientMessage::Common { common } => match common {
            CommonMessage::Chunk { data, id } => session.store_request(data.len(), *id),
        },
        _ => FileRequest::Nothing,
    }
}

/// What a message of the peer at `address` comes to, kind by kind.
pub open spec fn message_handled<H, K>(
    before: ServerContext<K>,
    after: ServerContext<K>,
    session: Context<H>,
    session_after: Context<H>,
    address: Seq<char>,
    message: ClientMessageView,
    opened: Option<Opened<H>>,
    time: i64,
    reaction: Reaction,
) -> bool {
    match message {
        ClientMessageView::Text { text } => {
            &&& text_handled(before, after, address, text, time, reaction)
            &&& session_after == session
        },
        ClientMessageView::Leave => {
            &&& leave_handled(before, after, address, time, reaction)
            &&& session_after == session
        },
        ClientMessageView::Rename { new_name } => {
            &&& rename_handled(before, after, address, new_name, time, reaction)
            &&& session_after == session
        },
        ClientMessageView::Common { common: CommonMessageView::Chunk { data, id } } => {
            &&& chunk_handled(before, session, session_after, data, id, reaction)
            &&& after == before
        },
        ClientMessageView::RequestFileUpload { name, size, id } => upload_handled(
            before,
            after,
            session,
            session_after,
            address,
            name,
            size,
            id,
            opened,
            time,
            reaction,
        ),
        ClientMessageView::RequestFileDownload { name } => download_handled(
            before,
            after,
            session,
            session_after,
            address,
            name,
            opened,
            time,
            reaction,
        ),
        ClientMessageView::AgreeFileDownload { id } => {
            &&& sending_started(session, session_after, id)
            &&& after == before
            &&& reaction.silent(MessageProcessing::Proceed)
        },
        ClientMessageView::DeclineFileDownload { id } => {
            &&& transfer_dropped(session, session_after, id_key(id))
            &&& after == before
            &&& reaction.silent(MessageProcessing::Proceed)
        },
    }
}

/// Handles one message of the peer at `address`, whose session is
/// `session`. `opened` is the file that the caller has created or opened
/// because the message asked for it, if it could. A peer that is not
/// connected is not heard: nothing changes, nothing is sent, and its
/// session is over. A session that ends leaves the peer not connected. For
/// a request to download, the session must have an id left to give.
pub fn handle_client_message<H, K>(
    server: &mut ServerContext<K>,
    session: &mut Context<H>,
    address: &str,
    message: &ClientMessage,
    opened: Option<Opened<H>>,
    time: i64,
) -> (reaction: Reaction)
    requires
        old(server).wf(),
        old(session).wf(),
        message is RequestFileDownload ==> old(session).nexd_id < usize::MAX,
    ensures
        final(server).wf(),
        final(session).wf(),
        if old(server).connected(address@) {
            message_handled(
                *old(server),
                *final(server),
                *old(session),
                *final(session),
                address@,
                message@,
                opened,
                time,
                reaction,
            )
        } else {
            &&& reaction.silent(MessageProcessing::Stop)
            &&& *final(server) == *old(server)
            &&& *final(session) == *old(session)
        },
        reaction.processing == MessageProcessing::Stop ==> !final(server).connected(address@),
        reaction.processing != MessageProcessing::ProceedButWaiting,
{
    if !server.clients.contains_key(address) {
        return Reaction::nothing(MessageProcessing::Stop);
    }
    match message {
        ClientMessage::Common { common } => handle_client_common_message(server, session, common),
        ClientMessage::Text { text } => handle_client_text(server, address, text.as_str(), time),
        ClientMessage::Leave => handle_client_leave(server, address, time),
        ClientMessage::Rename { new_name } => handle_client_rename(
            server,
            address,
            new_name.as_str(),
            time,
        ),
        ClientMessage::RequestFileUpload { name, size, id } => handle_client_request_file_upload(
            server,
            session,
            address,
            name.as_str(),
            *size,
            *id,
            opened,
            time,
        ),
        ClientMessage::RequestFileDownload { name } => handle_client_request_file_download(
            server,
            session,
            address,
            name.as_str(),
            opened,
            time,
        ),
        ClientMessage::AgreeFileDownload { id } => handle_client_agree_file_download(session, *id),
        ClientMessage::DeclineFileDownload { id } => handle_client_decline_file_download(
            session,
            *id,
        ),
    }
}

/// What one try to read a message of the peer at `address` comes to. A
/// message is handled. A read that would have had to wait changes nothing.
/// Any other failure to read cuts the peer off: those who stay are told.
pub open spec fn read_handled<H, K>(
    before: ServerContext<K>,
    after: ServerContext<K>,
    session: Context<H>,
    session_after: Context<H>,
    address: Seq<char>,
    read: Result<ClientMessage>,
    opened: Option<Opened<H>>,
    time: i64,
    reaction: Reaction,
) -> bool {
    if !before.connected(address) {
        &&& reaction.silent(MessageProcessing::Stop)
        &&& after == before
        &&& session_after == session
    } else {
        match read {
            Ok(message) => message_handled(
                before,
                after,
                session,
                session_after,
                address,
                message@,
                opened,
                time,
                reaction,
            ),
            Err(error) => if error.kind == (ErrorKind::Io { source: IoKind::WouldBlock }) {
                &&& reaction.silent(MessageProcessing::ProceedButWaiting)
                &&& after == before
                &&& session_after == session
            } else {
                &&& interrupted(before, after, address, time, reaction)
                &&& session_after == session
            },
        }
    }
}

/// Deals with what one try to read a message of the peer at `address` gave,
/// at the given time. The session must have an id left to give.
pub fn handle_client_read<H, K>(
    server: &mut ServerContext<K>,
    session: &mut Context<H>,
    address: &str,
    read: Result<ClientMessage>,
    opened: Option<Opened<H>>,
    time: i64,
) -> (reaction: Reaction)
    requires
        old(server).wf(),
        old(session).wf(),
        old(session).nexd_id < usize::MAX,
    ensures
        final(server).wf(),
        final(session).wf(),
        read_handled(
            *old(server),
            *final(server),
            *old(session),
            *final(session),
            address@,
            read,
            opened,
            time,
            reaction,
        ),
        reaction.processing == MessageProcessing::Stop ==> !final(server).connected(address@),
{
    match read {
        Ok(message) => handle_client_message(server, session, address, &message, opened, time),
        Err(error) => {
            if !server.clients.contains_key(address) {
                Reaction::nothing(MessageProcessing::Stop)
            } else if is_would_block_error(&error) {
                Reaction::nothing(MessageProcessing::ProceedButWaiting)
            } else {
                broadcast_interupt(server, address, time)
            }
        },
    }
}

/// Deals with what one try to read a message of the peer at `address` gave,
/// at the time at which it is called. The session must have an id left to
/// give.
pub fn read_and_handle_client_message<H, K>(
    server: &mut ServerContext<K>,
    session: &mut Context<H>,
    address: &str,
    read: Result<ClientMessage>,
    opened: Option<Opened<H>>,
) -> (reaction: Reaction)
    requires
        old(server).wf(),
        old(session).wf(),
        old(session).nexd_id < usize::MAX,
    ensures
        final(server).wf(),
        final(session).wf(),
        exists|time: i64|
            read_handled(
                *old(server),
                *final(server),
                *old(session),
                *final(session),
                address@,
                read,
                opened,
                time,
                reaction,
            ),
        reaction.processing == MessageProcessing::Stop ==> !final(server).connected(address@),
{
    let time = now();
    handle_client_read(server, session, address, read, opened, time)
}

/// What greeting a peer comes to: everyone who is connected is told of the
/// new user, and the new user is welcomed.
pub open spec fn greeted<K>(
    server: ServerContext<K>,
    address: Seq<char>,
    time: i64,
    reaction: Reaction,
) -> bool {
    &&& reaction.processing == MessageProcessing::Proceed
    &&& reaction.outgoing@.len() == 2
    &&& reaction.outgoing@[0].is(
        server.clients.keys(),
        ServerMessageView::NewUser { name: name_of(server.names, address), time },
    )
    &&& reaction.outgoing@[1].is(seq![address], ServerMessageView::Support { text: welcome() })
}

/// Greets the peer at `address`.
pub fn greet_user<K>(server: &ServerContext<K>, address: &str, time: i64) -> (reaction: Reaction)
    requires
        server.wf(),
    ensures
        greeted(*server, address@, time, reaction),
{
    let name = server.name(address);
    let mut outgoing: Vec<Outgoing> = Vec::new();
    outgoing.push(server.broadcast(&ServerMessage::NewUser { name, time }));
    let text = "Welcome to the club, mate".to_owned();
    outgoing.push(reply(address, ServerMessage::Support { text }));
    Reaction { processing: MessageProcessing::Proceed, outgoing }
}

/// What taking in a new peer comes to: it is connected, last among those
/// who are unless its address was known, and it is greeted.
pub open spec fn joined<K>(
    before: ServerContext<K>,
    after: ServerContext<K>,
    address: Seq<char>,
    session: K,
    time: i64,
    reaction: Reaction,
) -> bool {
    &&& after.wf()
    &&& after.names == before.names
    &&& after.clients.lookup(address) == Some(session)
    &&& forall|other: Seq<char>|
        other != address ==> after.clients.lookup(other) == before.clients.lookup(other)
    &&& after.clients.keys() == if before.connected(address) {
        before.clients.keys()
    } else {
        before.clients.keys().push(address)
    }
    &&& greeted(after, address, time, reaction)
}

/// Takes in a peer that has connected from `address`, at the given time;
/// `session` is the caller's handle of its session.
pub fn join<K>(server: &mut ServerContext<K>, address: &str, session: K, time: i64) -> (reaction:
    Reaction)
    requires
        old(server).wf(),
    ensures
        joined(*old(server), *final(server), address@, session, time, reaction),
{
    server.add_to_clients(address, session);
    greet_user(server, address, time)
}

/// Takes in a peer that has connected from `address`, at the time at which
/// it is called.
pub fn handle_client<K>(server: &mut ServerContext<K>, address: &str, session: K) -> (reaction:
    Reaction)
    requires
        old(server).wf(),
    ensures
        exists|time: i64| joined(*old(server), *final(server), address@, session, time, reaction),
{
    let time = now();
    join(server, address, session, time)
}

/// The sessions that go on after a round: all but those whose turn ended
/// with a stop, in their order. A session without a turn goes on.
pub open spec fn staying<T>(sessions: Seq<T>, read: Seq<MessageProcessing>) -> Seq<T>
    decreases sessions.len(),
{
    if sessions.len() == 0 {
        Seq::empty()
    } else {
        let last = sessions.len() - 1;
        let before = staying(sessions.drop_last(), read);
        if last < read.len() && read[last] == MessageProcessing::Stop {
            before
        } else {
            before.push(sessions[last])
        }
    }
}

/// Takes out, after a round, the sessions whose turn ended with a stop;
/// `read` holds what each turn ended with, in the order of the sessions.
/// The others keep their order.
pub fn remove_stopped<T>(sessions: &mut Vec<T>, read: &Vec<MessageProcessing>)
    ensures
        final(sessions)@ == staying(old(sessions)@, read@),
{
    let ghost all = sessions@;
    let total = sessions.len();
    let mut done: usize = 0;
    let mut at: usize = 0;
    while at < sessions.len()
        invariant
            all == old(sessions)@,
            all.len() == total,
            at <= done <= all.len(),
            sessions@.len() - at == all.len() - done,
            sessions@.subrange(0, at as int) == staying(all.subrange(0, done as int), read@),
            sessions@.subrange(at as int, sessions@.len() as int) == all.subrange(
                done as int,
                all.len() as int,
            ),
        decreases all.len() - done,
    {
        let ghost before = sessions@;
        let ghost next = all.subrange(0, done + 1);
        proof {
            assert(next.drop_last() =~= all.subrange(0, done as int));
            assert(next[done as int] == all[done as int]);
            let tail = before.subrange(at as int, before.len() as int);
            assert forall|k: int| at <= k < before.len() implies #[trigger] before[k] == all[k
                - at + done] by {
                assert(before[k] == tail[k - at]);
                assert(all.subrange(done as int, all.len() as int)[k - at] == all[k - at + done]);
            }
        }
        if done < read.len() && read[done] == MessageProcessing::Stop {
            sessions.remove(at);
            proof {
                let after = sessions@;
                assert(after.subrange(0, at as int) =~= before.subrange(0, at as int));
                assert(after.subrange(at as int, after.len() as int) =~= all.subrange(
                    done + 1,
                    all.len() as int,
                ));
            }
        } else {
            proof {
                assert(before.subrange(0, at + 1) =~= before.subrange(0, at as int).push(
                    all[done as int],
                ));
                assert(before.subrange(at + 1, before.len() as int) =~= all.subrange(
                    done + 1,
                    all.len() as int,
                ));
            }
            at += 1;
        }
        done += 1;
    }
    proof {
        assert(all.subrange(0, done as int) =~= all);
        assert(sessions@.subrange(0, at as int) =~= sessions@);
    }
}

/// Whether a round of the loop has brought anything: a new peer, a read
/// that did not have to wait, or a chunk that was sent.
pub open spec fn busy(accepted: bool, read: Seq<MessageProcessing>, sent: Seq<bool>) -> bool {
    ||| accepted
    ||| exists|i: int|
        0 <= i < read.len() && #[trigger] read[i] != MessageProcessing::ProceedButWaiting
    ||| exists|i: int| 0 <= i < sent.len() && #[trigger] sent[i]
}

/// Says whether a round of the loop has brought anything. After a round
/// that has not, the loop rests for `WAITING_DELAY_MILLIS`.
pub fn process_connections(accepted: bool, read: &Vec<MessageProcessing>, sent: &Vec<bool>)
    -> (did_something: bool)
    ensures
        did_something == busy(accepted, read@, sent@),
{
    if accepted {
        return true;
    }
    let mut at: usize = 0;
    while at < read.len()
        invariant
            at <= read@.len(),
            forall|i: int| 0 <= i < at ==> read@[i] == MessageProcessing::ProceedButWaiting,
        decreases read@.len() - at,
    {
        if read[at] != MessageProcessing::ProceedButWaiting {
            return true;
        }
        at += 1;
    }
    let mut at: usize = 0;
    while at < sent.len()
        invariant
            at <= sent@.len(),
            forall|i: int| 0 <= i < at ==> !sent@[i],
        decreases sent@.len() - at,
    {
        if sent[at] {
            return true;
        }
        at += 1;
    }
    false
}

/// A session that ends leaves its peer not connected: whatever was read
/// from the peer, once the answer is to stop, the peer is no longer among
/// those who get what is sent to everyone.
pub proof fn lemma_end_disconnects<H, K>(
    before: ServerContext<K>,
    after: ServerContext<K>,
    session: Context<H>,
    session_after: Context<H>,
    address: Seq<char>,
    read: Result<ClientMessage>,
    opened: Option<Opened<H>>,
    time: i64,
    reaction: Reaction,
)
    requires
        read_handled(before, after, session, session_after, address, read, opened, time, reaction),
        reaction.processing == MessageProcessing::Stop,
    ensures
        !after.connected(address),
        !after.clients.keys().contains(address),
{
    if !before.connected(address) {
        if before.clients.keys().contains(address) {
            let at = before.clients.keys().index_of(address);
            before.clients.lemma_position(at);
        }
    }
}

/// A peer that is not connected stays so, whoever is heard next, and is
/// itself not heard: what comes from it changes nothing and nothing is sent
/// for it. So after a peer has left or has been cut off, nothing more goes
/// out in its name.
pub proof fn lemma_gone_stays_gone<H, K>(
    before: ServerContext<K>,
    after: ServerContext<K>,
    session: Context<H>,
    session_after: Context<H>,
    address: Seq<char>,
    speaker: Seq<char>,
    read: Result<ClientMessage>,
    opened: Option<Opened<H>>,
    time: i64,
    reaction: Reaction,
)
    requires
        before.wf(),
        read_handled(before, after, session, session_after, speaker, read, opened, time, reaction),
        !before.connected(address),
    ensures
        !after.connected(address),
        speaker == address ==> reaction.silent(MessageProcessing::Stop) && after == before
            && session_after == session,
{
}

/// Whether the answer to a wish for a name is a refusal.
pub open spec fn refused(reaction: Reaction) -> bool {
    reaction.outgoing@.len() == 1 && reaction.outgoing@[0].message@ is Support
}

/// The name under which a text goes out.
pub open spec fn spoken_as(reaction: Reaction) -> Option<Seq<char>> {
    if reaction.outgoing@.len() == 1 {
        match reaction.outgoing@[0].message@ {
            ServerMessageView::Text { name, .. } => Some(name),
            _ => None,
        }
    } else {
        None
    }
}

/// A wish for a name shows in the peer's next text exactly if it was not
/// refused, and it is refused exactly if the name holds a dot or a colon or
/// another peer holds it. The wish and the text are within their bounds.
/// Left out is the wish for the very name under which the peer is known,
/// where that wish is refused: the name shows all the same.
pub proof fn lemma_rename_shows_in_texts<K>(
    before: ServerContext<K>,
    between: ServerContext<K>,
    after: ServerContext<K>,
    address: Seq<char>,
    new_name: Seq<char>,
    text: Seq<char>,
    asked: i64,
    said: i64,
    answer: Reaction,
    echo: Reaction,
)
    requires
        byte_len(new_name) <= MAXIMUM_NAME_SIZE,
        byte_len(text) <= MAXIMUM_TEXT_SIZE,
        name_of(before.names, address) == new_name ==> accepted(before.names, address, new_name),
        rename_handled(before, between, address, new_name, asked, answer),
        text_handled(between, after, address, text, said, echo),
    ensures
        refused(answer) <==> !accepted(before.names, address, new_name),
        spoken_as(echo) is Some,
        spoken_as(echo) == Some(new_name) <==> !refused(answer),
        refused(answer) ==> spoken_as(echo) == Some(name_of(before.names, address)),
{
}

/// A transfer never holds more than its size, and it is taken out by the
/// very chunk with which it holds all of it: after a chunk, the transfer is
/// gone exactly if its bytes add up to its size, and while it is kept it
/// holds less.
pub proof fn lemma_complete_iff_removed<H, K>(
    server: ServerContext<K>,
    before: Context<H>,
    after: Context<H>,
    data: Seq<u8>,
    id: usize,
    reaction: Reaction,
)
    requires
        before.wf(),
        before.reading(id_key(id)) is Some,
        chunk_handled(server, before, after, data, id, reaction),
    ensures
        ({
            let sharer = before.reading(id_key(id))->0;
            let written = sharer.written + at_most(
                data.len(),
                (sharer.size - sharer.written) as nat,
            );
            &&& written <= sharer.size
            &&& after.reading(id_key(id)) is None <==> written == sharer.size
            &&& after.reading(id_key(id)) matches Some(kept) ==> kept.written == written
                && kept.written < kept.size
        }),
{
    before.lemma_reading_wf(id_key(id));
}

/// No two peers ever hold the same name: where that is so before
/// something is read from a peer, it is so afterwards.
pub proof fn lemma_names_stay_distinct<H, K>(
    before: ServerContext<K>,
    after: ServerContext<K>,
    session: Context<H>,
    session_after: Context<H>,
    address: Seq<char>,
    read: Result<ClientMessage>,
    opened: Option<Opened<H>>,
    time: i64,
    reaction: Reaction,
)
    requires
        before.wf(),
        distinct(before.names),
        read_handled(before, after, session, session_after, address, read, opened, time, reaction),
    ensures
        distinct(after.names),
{
    assert forall|one: Seq<char>, other: Seq<char>, name: Seq<char>|
        one != other && #[trigger] holds(after.names, one, name) implies !#[trigger] holds(
        after.names,
        other,
        name,
    ) by {
        if holds(after.names, other, name) {
            if one != address && other != address {
                assert(holds(before.names, one, name));
                assert(holds(before.names, other, name));
            } else if one == address {
                assert(holds(before.names, other, name));
                if !holds(before.names, one, name) {
                    assert(taken(before.names, address, name));
                }
            } else {
                assert(holds(before.names, one, name));
                if !holds(before.names, other, name) {
                    assert(taken(before.names, address, name));
                }
            }
        }
    }
}

} // verus!
