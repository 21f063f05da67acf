use chat::client::commands::{Command, CommandProcessing};
use chat::client::{
    command_file_request, farewell, file_request, handle_server_message,
    handle_server_message_with, handle_user_command, handle_user_command_at,
    match_user_command_with_connection, perform_download_file, perform_rename, perform_text,
    perform_upload_file, read_and_handle_server_message, Effects, WAITING_DELAY_MILLIS,
};
use chat::communication::{explain_common_error, MessageProcessing};
use chat::connection::messages::{ClientMessage, CommonMessage, ServerMessage};
use chat::connection::{Context, FileRequest, Opened};
use chat::errors::{Error, ErrorKind, IoKind};

fn shown(effects: &Effects) -> &str {
    assert!(effects.send.is_none());
    effects.print.as_ref().unwrap().as_str()
}

fn sent(effects: &Effects) -> &ClientMessage {
    assert!(effects.print.is_none());
    effects.send.as_ref().unwrap()
}

fn quiet(effects: &Effects) -> bool {
    effects.send.is_none() && effects.print.is_none()
}

fn chunk(data: Vec<u8>, id: usize) -> ServerMessage {
    ServerMessage::Common { common: CommonMessage::Chunk { data, id } }
}

#[test]
fn the_client_rests_as_long_as_the_server() {
    assert_eq!(WAITING_DELAY_MILLIS, 16);
}

#[test]
fn text_and_rename_are_sent_as_they_are() {
    match sent(&perform_text("hi")) {
        ClientMessage::Text { text } => assert_eq!(text, "hi"),
        other => panic!("unexpected message {:?}", other),
    }
    match sent(&perform_rename("Bob")) {
        ClientMessage::Rename { new_name } => assert_eq!(new_name, "Bob"),
        other => panic!("unexpected message {:?}", other),
    }
}

#[test]
fn upload_asks_the_server_with_the_size_of_the_file_and_a_fresh_id() {
    let mut session: Context<u8> = Context::new();
    let opened = Some(Opened { file: 5u8, size: 250 });
    let effects = perform_upload_file(&mut session, "out.bin", "in.bin", opened, 11);
    match sent(&effects) {
        ClientMessage::RequestFileUpload { name, size, id } => {
            assert_eq!(name, "out.bin");
            assert_eq!(*size, 250);
            assert_eq!(*id, 0);
        }
        other => panic!("unexpected message {:?}", other),
    }
    let kept = session.sharer(0).unwrap();
    assert_eq!(kept.path, "in.bin");
    assert_eq!(kept.name, "out.bin");
    assert_eq!(kept.size, 250);
    assert_eq!(kept.file, 5);
    assert_eq!(session.nexd_id, 1);
    let opened = Some(Opened { file: 6u8, size: 1 });
    let effects = perform_upload_file(&mut session, "b", "b", opened, 11);
    assert!(matches!(sent(&effects), ClientMessage::RequestFileUpload { id: 1, .. }));
}

#[test]
fn upload_of_a_file_that_is_not_there_tells_the_user() {
    let mut session: Context<u8> = Context::new();
    let effects = perform_upload_file(&mut session, "out.bin", "in.bin", None, 0);
    assert_eq!(shown(&effects), "(Console) No, I can't find such a file");
    assert_eq!(session.nexd_id, 0);
}

#[test]
fn download_waits_under_the_name_of_the_file() {
    let mut session: Context<u8> = Context::new();
    let opened = Some(Opened { file: 5u8, size: 0 });
    let effects = perform_download_file(&mut session, "out.bin", "got.bin", opened, 0);
    match sent(&effects) {
        ClientMessage::RequestFileDownload { name } => assert_eq!(name, "out.bin"),
        other => panic!("unexpected message {:?}", other),
    }
    assert_eq!(session.reading_sharers.get("out.bin").unwrap().path, "got.bin");
    let agreed =
        ServerMessage::AgreeFileDownload { name: "out.bin".to_owned(), size: 250, id: 0 };
    let effects = handle_server_message_with(&mut session, &agreed, "");
    assert!(matches!(sent(&effects), ClientMessage::AgreeFileDownload { id: 0 }));
    let kept = session.sharer(0).unwrap();
    assert_eq!(kept.size, 250);
    assert_eq!(kept.path, "got.bin");
    assert!(session.reading_sharers.get("out.bin").is_none());
}

#[test]
fn download_to_a_file_that_is_there_tells_the_user() {
    let mut session: Context<u8> = Context::new();
    let effects = perform_download_file(&mut session, "out.bin", "got.bin", None, 0);
    assert_eq!(shown(&effects), "(Console) No, wait, the file already exists!");
    assert_eq!(session.reading_sharers.len(), 0);
}

#[test]
fn an_agreed_upload_moves_to_the_sending_queue() {
    let mut session: Context<u8> = Context::new();
    session.open_sharer("in.bin", 1, "out.bin", 250, 0, 0);
    let effects =
        handle_server_message_with(&mut session, &ServerMessage::AgreeFileUpload { id: 0 }, "");
    assert!(quiet(&effects));
    assert!(session.sharer(0).is_none());
    assert_eq!(session.sending_sharers_queue().len(), 1);
    let effects =
        handle_server_message_with(&mut session, &ServerMessage::AgreeFileUpload { id: 0 }, "");
    assert!(quiet(&effects));
    assert_eq!(session.sending_sharers_queue().len(), 1);
}

#[test]
fn a_declined_upload_is_dropped_and_shown() {
    let mut session: Context<u8> = Context::new();
    session.open_sharer("in.bin", 1, "out.bin", 250, 0, 0);
    let declined = ServerMessage::DeclineFileUpload { id: 0, reason: "No room".to_owned() };
    let effects = handle_server_message_with(&mut session, &declined, "");
    assert_eq!(shown(&effects), "(Server) Nah, wait with your #out.bin. No room");
    assert!(session.sharer(0).is_none());
    let effects = handle_server_message_with(&mut session, &declined, "");
    assert!(quiet(&effects));
}

#[test]
fn a_declined_download_is_dropped_and_shown() {
    let mut session: Context<u8> = Context::new();
    session.prepare_sharer("got.bin", 1, "out.bin", 0);
    let declined = ServerMessage::DeclineFileDownload {
        name: "out.bin".to_owned(),
        reason: "There's no such a file".to_owned(),
    };
    let effects = handle_server_message_with(&mut session, &declined, "");
    assert_eq!(shown(&effects), "(Server) Nah, I won't give you out.bin. There's no such a file");
    assert_eq!(session.reading_sharers.len(), 0);
}

#[test]
fn the_last_chunk_of_a_download_tells_the_user() {
    let mut session: Context<u8> = Context::new();
    session.open_sharer("got.bin", 1, "out.bin", 250, 0, 0);
    for size in [100usize, 100] {
        let message = chunk(vec![1; size], 0);
        assert!(matches!(
            file_request(&session, &message),
            FileRequest::Store { id: 0, count } if count == size
        ));
        assert!(quiet(&handle_server_message_with(&mut session, &message, "")));
    }
    let message = chunk(vec![1; 100], 0);
    assert!(matches!(file_request(&session, &message), FileRequest::Store { id: 0, count: 50 }));
    let effects = handle_server_message_with(&mut session, &message, "");
    assert_eq!(shown(&effects), "(Console) Downloaded out.bin and saved to got.bin");
    assert!(session.sharer(0).is_none());
    assert!(matches!(file_request(&session, &message), FileRequest::Nothing));
    assert!(quiet(&handle_server_message_with(&mut session, &message, "")));
}

#[test]
fn other_messages_are_shown() {
    let mut session: Context<u8> = Context::new();
    let message = ServerMessage::Text { text: "hi".to_owned(), name: "Bob".to_owned(), time: 0 };
    let effects = handle_server_message_with(&mut session, &message, "1 Jan 1970 00:00:00");
    assert_eq!(shown(&effects), "<1 Jan 1970 00:00:00> [Bob] hi");
    let effects = handle_server_message(&mut session, &message);
    let line = shown(&effects);
    assert!(line.starts_with("<"));
    assert!(line.ends_with("> [Bob] hi"));
    let message = ServerMessage::NewFile { name: "out.bin".to_owned() };
    let effects = handle_server_message(&mut session, &message);
    assert_eq!(shown(&effects), "~~ And the new file is out.bin ~~");
}

#[test]
fn reading_from_the_server() {
    let mut session: Context<u8> = Context::new();
    let waited = Err(Error::io(IoKind::WouldBlock));
    let (processing, effects) = read_and_handle_server_message(&mut session, waited);
    assert_eq!(processing, MessageProcessing::ProceedButWaiting);
    assert!(quiet(&effects));

    let closed = Err(Error::new(ErrorKind::NothingToRead));
    let (processing, effects) = read_and_handle_server_message(&mut session, closed);
    assert_eq!(processing, MessageProcessing::Stop);
    assert_eq!(
        shown(&effects),
        "(Server) Error > Shared Code Error > Unable to parse a message, closing the connection"
    );

    let capped = Err(Error::io(IoKind::InvalidData));
    let (processing, effects) = read_and_handle_server_message(&mut session, capped);
    assert_eq!(processing, MessageProcessing::Stop);
    assert_eq!(
        shown(&effects),
        "(Server) Error > Too much data for a single message, disconnecting"
    );

    let message = Ok(ServerMessage::Support { text: "Welcome".to_owned() });
    let (processing, effects) = read_and_handle_server_message(&mut session, message);
    assert_eq!(processing, MessageProcessing::Proceed);
    assert_eq!(shown(&effects), "(Server) Welcome");
}

#[test]
fn errors_are_explained() {
    assert_eq!(
        explain_common_error(&Error::io(IoKind::InvalidData)),
        "Too much data for a single message, disconnecting"
    );
    assert_eq!(
        explain_common_error(&Error::io(IoKind::ConnectionReset)),
        "Shared Code Error > Io > connection reset"
    );
    assert_eq!(
        explain_common_error(&Error::new(ErrorKind::MessageSizeExceeded)),
        "Shared Code Error > Message maximum size exceeded"
    );
}

#[test]
fn commands_without_a_connection() {
    let mut connection: Option<Context<u8>> = None;
    let (processing, effects) =
        handle_user_command_at(&Command::Text { text: "hi".to_owned() }, &mut connection, None, 0);
    assert!(matches!(processing, CommandProcessing::Proceed));
    assert_eq!(
        shown(&effects),
        "(Console) Easy now! We should first establish a connection, all right? Go on, use /connect"
    );
    let (processing, effects) = handle_user_command_at(&Command::End, &mut connection, None, 0);
    assert!(matches!(processing, CommandProcessing::Stop));
    assert!(quiet(&effects));
    let (processing, effects) = handle_user_command_at(&Command::Nothing, &mut connection, None, 0);
    assert!(matches!(processing, CommandProcessing::Proceed));
    assert!(quiet(&effects));
    let connect = Command::Connect { address: "localhost:6969".to_owned() };
    let (processing, effects) = handle_user_command_at(&connect, &mut connection, None, 0);
    match processing {
        CommandProcessing::Connect(address) => assert_eq!(address, "localhost:6969"),
        other => panic!("unexpected processing {:?}", other),
    }
    assert!(quiet(&effects));
    assert!(quiet(&farewell(&connection)));
}

#[test]
fn commands_on_a_connection() {
    let mut connection: Option<Context<u8>> = Some(Context::new());
    let (processing, effects) =
        handle_user_command(&Command::Text { text: "hi".to_owned() }, &mut connection, None);
    assert!(matches!(processing, CommandProcessing::Proceed));
    assert!(matches!(sent(&effects), ClientMessage::Text { .. }));
    let upload = Command::UploadFile { name: "out.bin".to_owned(), path: "in.bin".to_owned() };
    let opened = Some(Opened { file: 1u8, size: 250 });
    let (_, effects) = handle_user_command_at(&upload, &mut connection, opened, 3);
    assert!(matches!(sent(&effects), ClientMessage::RequestFileUpload { size: 250, id: 0, .. }));
    assert_eq!(connection.as_ref().unwrap().sharer(0).unwrap().old_time_point, 3);
    assert!(matches!(sent(&farewell(&connection)), ClientMessage::Leave));
}

#[test]
fn match_user_command_passes_over_what_needs_no_connection() {
    let mut session: Context<u8> = Context::new();
    for command in [Command::Nothing, Command::End] {
        assert!(quiet(&match_user_command_with_connection(&command, &mut session, None, 0)));
    }
    let rename = Command::Rename { new_name: "Bob".to_owned() };
    let effects = match_user_command_with_connection(&rename, &mut session, None, 0);
    assert!(matches!(sent(&effects), ClientMessage::Rename { .. }));
}

#[test]
fn commands_ask_for_their_files() {
    let upload = Command::UploadFile { name: "out.bin".to_owned(), path: "in.bin".to_owned() };
    match command_file_request(&upload, true) {
        FileRequest::Open { path } => assert_eq!(path, "in.bin"),
        other => panic!("unexpected request {:?}", other),
    }
    let download = Command::DownloadFile { name: "out.bin".to_owned(), path: "got.bin".to_owned() };
    match command_file_request(&download, true) {
        FileRequest::Create { path } => assert_eq!(path, "got.bin"),
        other => panic!("unexpected request {:?}", other),
    }
    assert!(matches!(command_file_request(&upload, false), FileRequest::Nothing));
    assert!(matches!(command_file_request(&Command::End, true), FileRequest::Nothing));
}
