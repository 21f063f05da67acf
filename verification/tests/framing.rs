use chat::communication::arson::{ArsonReader, ArsonScanner, ArsonWriter, Message};
use chat::communication::bson::{
    from_reader_with_checked_errors, BsonReader, BsonScanner, BsonWriter, Document,
};
use chat::communication::{ReadMessage, WriteMessage};
use chat::connection::messages::{
    ClientMessage, CommonMessage, ServerMessage, MAXIMUM_MESSAGE_SIZE,
};
use chat::errors::{Error, ErrorKind, IoKind};

fn client_messages() -> Vec<ClientMessage> {
    vec![
        ClientMessage::Text { text: "hi there".to_owned() },
        ClientMessage::Leave,
        ClientMessage::Rename { new_name: "Bob".to_owned() },
        ClientMessage::Common { common: CommonMessage::Chunk { data: vec![0, 255, 7], id: 3 } },
        ClientMessage::RequestFileUpload { name: "out.bin".to_owned(), size: 250, id: 0 },
        ClientMessage::RequestFileDownload { name: "out.bin".to_owned() },
        ClientMessage::AgreeFileDownload { id: 12 },
        ClientMessage::DeclineFileDownload { id: usize::MAX },
    ]
}

fn server_messages() -> Vec<ServerMessage> {
    vec![
        ServerMessage::Text { text: "héllo".to_owned(), name: "A".to_owned(), time: -5 },
        ServerMessage::NewUser { name: "127.0.0.1:5000".to_owned(), time: 0 },
        ServerMessage::Interrupt { name: "Bob".to_owned(), time: i64::MAX },
        ServerMessage::UserLeaves { name: "Bob".to_owned(), time: i64::MIN },
        ServerMessage::Support { text: "Welcome to the club, mate".to_owned() },
        ServerMessage::UserRenamed { old_name: "a".to_owned(), new_name: "b".to_owned() },
        ServerMessage::NewFile { name: "out.bin".to_owned() },
        ServerMessage::Common { common: CommonMessage::Chunk { data: vec![], id: 0 } },
        ServerMessage::AgreeFileUpload { id: 0 },
        ServerMessage::DeclineFileUpload { id: 4, reason: "no".to_owned() },
        ServerMessage::AgreeFileDownload { name: "out.bin".to_owned(), size: 250, id: 0 },
        ServerMessage::DeclineFileDownload { name: "x".to_owned(), reason: "none".to_owned() },
    ]
}

fn announced(frame: &[u8]) -> usize {
    u32::from_le_bytes([frame[0], frame[1], frame[2], frame[3]]) as usize
}

fn kind_of<T>(read: Result<T, Error>) -> ErrorKind {
    match read {
        Ok(_) => panic!("a message came out"),
        Err(error) => error.kind,
    }
}

#[test]
fn frame_of_leave_is_five_bytes() {
    let mut writer = ArsonWriter::new();
    let frame = writer.write_message(&ClientMessage::Leave).unwrap();
    assert_eq!(frame, vec![5u8, 0, 0, 0, 1]);
}

#[test]
fn frame_of_text_spells_length_kind_and_text() {
    let mut writer = ArsonWriter::new();
    let message = ClientMessage::Text { text: "hi".to_owned() };
    let frame = writer.write_message(&message).unwrap();
    assert_eq!(frame, vec![11u8, 0, 0, 0, 0, 2, 0, 0, 0, b'h', b'i']);
}

#[test]
fn frame_of_upload_request_spells_numbers_in_eight_bytes() {
    let mut writer = ArsonWriter::new();
    let message = ClientMessage::RequestFileUpload { name: "a".to_owned(), size: 250, id: 1 };
    let frame = writer.write_message(&message).unwrap();
    let mut expected = vec![26u8, 0, 0, 0, 4, 1, 0, 0, 0, b'a'];
    expected.extend_from_slice(&[250, 0, 0, 0, 0, 0, 0, 0]);
    expected.extend_from_slice(&[1, 0, 0, 0, 0, 0, 0, 0]);
    assert_eq!(frame, expected);
}

#[test]
fn frame_of_server_text_moves_time_up() {
    let mut writer = ArsonWriter::new();
    let message = ServerMessage::Text { text: "t".to_owned(), name: "n".to_owned(), time: 1 };
    let frame = writer.write_message(&message).unwrap();
    let mut expected = vec![23u8, 0, 0, 0, 0, 1, 0, 0, 0, b't', 1, 0, 0, 0, b'n'];
    expected.extend_from_slice(&[1, 0, 0, 0, 0, 0, 0, 0x80]);
    assert_eq!(frame, expected);
}

#[test]
fn frame_of_chunk_spells_data_then_id() {
    let mut writer = ArsonWriter::new();
    let message = CommonMessage::Chunk { data: vec![9, 8], id: 2 };
    let frame = writer.write_message(&message).unwrap();
    let mut expected = vec![19u8, 0, 0, 0, 0, 2, 0, 0, 0, 9, 8];
    expected.extend_from_slice(&[2, 0, 0, 0, 0, 0, 0, 0]);
    assert_eq!(frame, expected);
}

#[test]
fn every_client_frame_announces_its_own_length() {
    let mut writer = ArsonWriter::new();
    for message in client_messages() {
        let frame = writer.write_message(&message).unwrap();
        assert_eq!(announced(&frame), frame.len());
    }
}

#[test]
fn every_server_frame_announces_its_own_length() {
    let mut writer = ArsonWriter::new();
    for message in server_messages() {
        let frame = writer.write_message(&message).unwrap();
        assert_eq!(announced(&frame), frame.len());
    }
}

#[test]
fn every_client_message_round_trips() {
    let mut writer = ArsonWriter::new();
    for message in client_messages() {
        let frame = writer.write_message(&message).unwrap();
        let mut scanner = ArsonScanner::new(MAXIMUM_MESSAGE_SIZE);
        let read: ClientMessage = scanner.read_message(Ok(frame)).unwrap();
        assert_eq!(format!("{:?}", read), format!("{:?}", message));
        assert_eq!(scanner.space_left(), MAXIMUM_MESSAGE_SIZE);
    }
}

#[test]
fn every_server_message_round_trips() {
    let mut writer = ArsonWriter::new();
    for message in server_messages() {
        let frame = writer.write_message(&message).unwrap();
        let mut scanner = ArsonScanner::new(MAXIMUM_MESSAGE_SIZE);
        let read: ServerMessage = scanner.read_message(Ok(frame)).unwrap();
        assert_eq!(format!("{:?}", read), format!("{:?}", message));
    }
}

#[test]
fn documents_round_trip_through_to_and_from_document() {
    for message in client_messages() {
        let document = message.to_document().unwrap();
        let back = ClientMessage::from_document(&document).unwrap();
        assert_eq!(format!("{:?}", back), format!("{:?}", message));
    }
}

#[test]
fn scanner_waits_for_the_whole_frame() {
    let mut writer = ArsonWriter::new();
    let message = ClientMessage::Rename { new_name: "Bob".to_owned() };
    let frame = writer.write_message(&message).unwrap();
    let mut scanner = ArsonScanner::new(1024);
    let first: Result<ClientMessage, _> = scanner.read_message(Ok(frame[..3].to_vec()));
    assert!(matches!(kind_of(first), ErrorKind::Io { source: IoKind::WouldBlock }));
    let second: Result<ClientMessage, _> = scanner.read_message(Ok(frame[3..6].to_vec()));
    assert!(matches!(kind_of(second), ErrorKind::Io { source: IoKind::WouldBlock }));
    let third: Result<ClientMessage, _> = scanner.read_message(Ok(frame[6..].to_vec()));
    match third.unwrap() {
        ClientMessage::Rename { new_name } => assert_eq!(new_name, "Bob"),
        other => panic!("unexpected message {:?}", other),
    }
}

#[test]
fn scanner_hands_out_two_frames_of_one_read_one_by_one() {
    let mut writer = ArsonWriter::new();
    let mut bytes = writer.write_message(&ClientMessage::Text { text: "a".to_owned() }).unwrap();
    bytes.extend(writer.write_message(&ClientMessage::Leave).unwrap());
    let mut scanner = ArsonScanner::new(1024);
    let first: ClientMessage = scanner.read_message(Ok(bytes)).unwrap();
    assert!(matches!(first, ClientMessage::Text { .. }));
    assert_eq!(scanner.space_left(), 1024 - 5);
    let second: ClientMessage = scanner.read_message(Err(IoKind::WouldBlock)).unwrap();
    assert!(matches!(second, ClientMessage::Leave));
    let third: Result<ClientMessage, _> = scanner.read_message(Err(IoKind::WouldBlock));
    assert!(matches!(kind_of(third), ErrorKind::Io { source: IoKind::WouldBlock }));
}

#[test]
fn scanner_lets_a_buffered_frame_out_after_the_peer_closed() {
    let mut writer = ArsonWriter::new();
    let mut bytes = writer.write_message(&ClientMessage::Text { text: "a".to_owned() }).unwrap();
    bytes.extend(writer.write_message(&ClientMessage::Leave).unwrap());
    let mut scanner = ArsonScanner::new(1024);
    let _first: ClientMessage = scanner.read_message(Ok(bytes)).unwrap();
    let second: ClientMessage = scanner.read_message(Ok(vec![])).unwrap();
    assert!(matches!(second, ClientMessage::Leave));
    let third: Result<ClientMessage, _> = scanner.read_message(Ok(vec![]));
    assert!(matches!(kind_of(third), ErrorKind::NothingToRead));
}

#[test]
fn scanner_has_nothing_to_read_after_a_close_in_the_middle_of_a_frame() {
    let mut scanner = BsonScanner::new(1024);
    let first = scanner.read_message(Ok(vec![9, 0, 0, 0, 1]));
    assert!(matches!(kind_of(first), ErrorKind::Io { source: IoKind::WouldBlock }));
    let second = scanner.read_message(Ok(vec![]));
    assert!(matches!(kind_of(second), ErrorKind::NothingToRead));
}

#[test]
fn scanner_has_nothing_to_read_after_a_reset() {
    let mut scanner = BsonScanner::new(1024);
    let read = scanner.read_message(Err(IoKind::ConnectionReset));
    assert!(matches!(kind_of(read), ErrorKind::NothingToRead));
}

#[test]
fn scanner_passes_other_failures_on() {
    let mut scanner = BsonScanner::new(1024);
    let read = scanner.read_message(Err(IoKind::Other));
    assert!(matches!(kind_of(read), ErrorKind::Io { source: IoKind::Other }));
}

#[test]
fn a_length_above_the_cap_is_refused_as_soon_as_it_is_there() {
    let mut scanner: ArsonScanner = ArsonScanner::new(MAXIMUM_MESSAGE_SIZE);
    let read: Result<ClientMessage, _> = scanner.read_message(Ok(vec![1, 4, 0, 0]));
    assert!(matches!(kind_of(read), ErrorKind::MessageSizeExceeded));
}

#[test]
fn a_length_at_the_cap_is_waited_for() {
    let mut scanner: ArsonScanner = ArsonScanner::new(MAXIMUM_MESSAGE_SIZE);
    let read: Result<ClientMessage, _> = scanner.read_message(Ok(vec![0, 4, 0, 0]));
    assert!(matches!(kind_of(read), ErrorKind::Io { source: IoKind::WouldBlock }));
}

#[test]
fn a_text_frame_of_exactly_the_cap_comes_out() {
    let mut writer = ArsonWriter::new();
    let text = "x".repeat(MAXIMUM_MESSAGE_SIZE - 9);
    let frame = writer.write_message(&ClientMessage::Text { text: text.clone() }).unwrap();
    assert_eq!(frame.len(), MAXIMUM_MESSAGE_SIZE);
    let mut scanner = ArsonScanner::new(MAXIMUM_MESSAGE_SIZE);
    let read: ClientMessage = scanner.read_message(Ok(frame)).unwrap();
    match read {
        ClientMessage::Text { text: found } => assert_eq!(found, text),
        other => panic!("unexpected message {:?}", other),
    }
}

#[test]
fn more_bytes_than_the_buffer_has_room_for_are_invalid_data() {
    let mut scanner = BsonScanner::new(8);
    let read = scanner.read_message(Ok(vec![0; 9]));
    assert!(matches!(kind_of(read), ErrorKind::Io { source: IoKind::InvalidData }));
    assert_eq!(scanner.space_left(), 8);
}

#[test]
fn a_length_below_four_is_malformed() {
    let mut scanner = BsonScanner::new(1024);
    let read = scanner.read_message(Ok(vec![3, 0, 0, 0, 1, 2]));
    assert!(matches!(kind_of(read), ErrorKind::MalformedMessage { .. }));
}

#[test]
fn a_body_that_spells_no_message_is_malformed_and_leaves_the_buffer() {
    let mut scanner = ArsonScanner::new(1024);
    let read: Result<ClientMessage, _> = scanner.read_message(Ok(vec![5, 0, 0, 0, 99]));
    assert!(matches!(kind_of(read), ErrorKind::MalformedMessage { .. }));
    assert_eq!(scanner.space_left(), 1024);
}

#[test]
fn a_body_with_bytes_behind_the_message_is_malformed() {
    let mut scanner = ArsonScanner::new(1024);
    let read: Result<ClientMessage, _> = scanner.read_message(Ok(vec![6, 0, 0, 0, 1, 0]));
    assert!(matches!(kind_of(read), ErrorKind::MalformedMessage { .. }));
}

#[test]
fn a_text_that_is_not_utf8_is_malformed() {
    let mut scanner = ArsonScanner::new(1024);
    let frame = vec![11u8, 0, 0, 0, 0, 2, 0, 0, 0, 0xff, 0xfe];
    let read: Result<ClientMessage, _> = scanner.read_message(Ok(frame));
    assert!(matches!(kind_of(read), ErrorKind::MalformedMessage { .. }));
}

#[test]
fn a_text_in_utf8_is_decoded() {
    let mut scanner = ArsonScanner::new(1024);
    let frame = vec![11u8, 0, 0, 0, 0, 2, 0, 0, 0, 0xc3, 0xa9];
    let read: ClientMessage = scanner.read_message(Ok(frame)).unwrap();
    match read {
        ClientMessage::Text { text } => assert_eq!(text, "é"),
        other => panic!("unexpected message {:?}", other),
    }
}

#[test]
fn try_fetch_size_needs_four_bytes() {
    let mut scanner = BsonScanner::new(1024);
    assert_eq!(scanner.try_fetch_size(), None);
    let _ = scanner.read_message(Ok(vec![7, 0, 0]));
    assert_eq!(scanner.try_fetch_size(), None);
    let _ = scanner.read_message(Ok(vec![0]));
    assert_eq!(scanner.try_fetch_size(), Some(7));
}

#[test]
fn parse_drains_exactly_the_frame() {
    let mut scanner = BsonScanner::new(1024);
    let _ = scanner.read_message(Ok(vec![6, 0, 0, 0]));
    let _ = scanner.read_message(Ok(vec![1, 2, 9, 0]));
    assert_eq!(scanner.space_left(), 1024 - 2);
    assert!(matches!(kind_of(scanner.parse()), ErrorKind::Io { source: IoKind::WouldBlock }));
    assert_eq!(scanner.space_left(), 1024 - 2);
}

#[test]
fn document_reads_back_from_its_frame() {
    let mut writer = BsonWriter::new();
    let frame = writer.write_message(&Document::new(vec![7, 8, 9])).unwrap();
    assert_eq!(frame, vec![7u8, 0, 0, 0, 7, 8, 9]);
    let document = from_reader_with_checked_errors(&frame).unwrap();
    assert_eq!(document.body, vec![7, 8, 9]);
    let mut scanner = BsonScanner::new(16);
    let read = scanner.read_message(Ok(frame)).unwrap();
    assert_eq!(read.body, vec![7, 8, 9]);
}

#[test]
fn from_reader_has_nothing_to_read_in_a_short_input() {
    assert!(matches!(kind_of(from_reader_with_checked_errors(&[])), ErrorKind::NothingToRead));
    assert!(matches!(
        kind_of(from_reader_with_checked_errors(&[8, 0, 0, 0, 1])),
        ErrorKind::NothingToRead
    ));
}

#[test]
fn from_reader_refuses_a_frame_shorter_than_its_length_field() {
    assert!(matches!(
        kind_of(from_reader_with_checked_errors(&[2, 0, 0, 0, 1])),
        ErrorKind::MalformedMessage { .. }
    ));
}

#[test]
fn from_reader_leaves_what_follows_the_frame() {
    let document = from_reader_with_checked_errors(&[5, 0, 0, 0, 1, 6, 0, 0, 0]).unwrap();
    assert_eq!(document.body, vec![1]);
}

#[test]
fn bson_reader_reads_within_the_cap() {
    let mut reader = BsonReader::new(8);
    let (document, taken) = reader.read_message(&[6, 0, 0, 0, 1, 2, 77]).unwrap();
    assert_eq!(document.body, vec![1, 2]);
    assert_eq!(taken, 6);
}

#[test]
fn bson_reader_refuses_a_frame_beyond_the_cap() {
    let mut reader = BsonReader::new(8);
    let read = reader.read_message(&[9, 0, 0, 0, 1, 2, 3, 4, 5]);
    assert!(matches!(kind_of(read), ErrorKind::Io { source: IoKind::InvalidData }));
}

#[test]
fn bson_reader_has_nothing_to_read_when_the_input_ends_early() {
    let mut reader = BsonReader::new(8);
    let read = reader.read_message(&[8, 0, 0, 0, 1, 2]);
    assert!(matches!(kind_of(read), ErrorKind::NothingToRead));
    let read = reader.read_message(&[]);
    assert!(matches!(kind_of(read), ErrorKind::NothingToRead));
}

#[test]
fn arson_reader_reads_a_typed_message() {
    let mut writer = ArsonWriter::new();
    let frame = writer.write_message(&ServerMessage::AgreeFileUpload { id: 7 }).unwrap();
    let mut reader = ArsonReader::new(MAXIMUM_MESSAGE_SIZE);
    let (message, taken): (ServerMessage, usize) = reader.read_message(&frame).unwrap();
    assert!(matches!(message, ServerMessage::AgreeFileUpload { id: 7 }));
    assert_eq!(taken, frame.len());
}

#[test]
fn server_text_round_trips_with_negative_time() {
    let mut writer = ArsonWriter::new();
    let message = ServerMessage::Text { text: "héllo".to_owned(), name: "A".to_owned(), time: -5 };
    let frame = writer.write_message(&message).unwrap();
    let mut scanner = ArsonScanner::new(1024);
    let read: ServerMessage = scanner.read_message(Ok(frame)).unwrap();
    match read {
        ServerMessage::Text { text, name, time } => {
            assert_eq!(text, "héllo");
            assert_eq!(name, "A");
            assert_eq!(time, -5);
        }
        other => panic!("unexpected message {:?}", other),
    }
}

#[test]
fn chunk_round_trips() {
    let mut writer = ArsonWriter::new();
    let message = CommonMessage::Chunk { data: vec![1, 2, 3], id: 9 };
    let frame = writer.write_message(&message).unwrap();
    let mut scanner = ArsonScanner::new(1024);
    let read: CommonMessage = scanner.read_message(Ok(frame)).unwrap();
    match read {
        CommonMessage::Chunk { data, id } => {
            assert_eq!(data, vec![1, 2, 3]);
            assert_eq!(id, 9);
        }
    }
}
