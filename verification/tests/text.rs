use chat::capped_reader::{CappedRead, CappedReader};
use chat::communication::json::{JsonReader, JsonWriter};
use chat::communication::WriteMessage;
use chat::connection::messages::{CommonMessage, ServerMessage};
use chat::errors::{is_would_block_error, Error, ErrorKind, IoKind, JsonFailure};
use chat::text::{characters, contains_char, decimal, same_text, text_len};

fn kind_of<T>(read: Result<T, Error>) -> ErrorKind {
    match read {
        Ok(_) => panic!("a value came out"),
        Err(error) => error.kind,
    }
}

#[test]
fn decimal_spells_numbers() {
    assert_eq!(decimal(0), "0");
    assert_eq!(decimal(7), "7");
    assert_eq!(decimal(10), "10");
    assert_eq!(decimal(6969), "6969");
    assert_eq!(decimal(1234567890), "1234567890");
    assert_eq!(decimal(usize::MAX), usize::MAX.to_string());
}

#[test]
fn characters_of_a_text() {
    assert_eq!(characters("aé√"), vec!['a', 'é', '√']);
    assert_eq!(characters(""), Vec::<char>::new());
}

#[test]
fn contains_char_looks_at_every_character() {
    assert!(contains_char("a.b", '.'));
    assert!(contains_char("ab:", ':'));
    assert!(!contains_char("ab", '.'));
    assert!(!contains_char("", '.'));
    assert!(contains_char("é√", '√'));
}

#[test]
fn same_text_and_text_len() {
    assert!(same_text("abc", "abc"));
    assert!(!same_text("abc", "abd"));
    assert!(!same_text("abc", "ab"));
    assert_eq!(text_len("abc"), 3);
    assert_eq!(text_len("é"), 2);
    assert_eq!(text_len(""), 0);
}

#[test]
fn server_messages_are_shown_as_lines() {
    let name = || "Bob".to_owned();
    let cases = vec![
        (
            ServerMessage::Text { text: "hi".to_owned(), name: name(), time: 0 },
            "<12:00> [Bob] hi",
        ),
        (ServerMessage::NewUser { name: name(), time: 0 }, "~~ Meet our new mate: Bob ~~"),
        (ServerMessage::Interrupt { name: name(), time: 0 }, "~~ Press F, Bob ~~"),
        (ServerMessage::UserLeaves { name: name(), time: 0 }, "~~ Bob leaves the party ~~"),
        (ServerMessage::Support { text: "Welcome".to_owned() }, "(Server) Welcome"),
        (
            ServerMessage::UserRenamed { old_name: "Al".to_owned(), new_name: name() },
            "~~ He once used to be Al, but now he is Bob ~~",
        ),
        (ServerMessage::NewFile { name: "f".to_owned() }, "~~ And the new file is f ~~"),
        (ServerMessage::AgreeFileUpload { id: 12 }, "(Server) Sure, I'm ready to accept #12"),
        (
            ServerMessage::DeclineFileUpload { id: 3, reason: "No".to_owned() },
            "(Server) Nah, wait with your #3. No",
        ),
        (
            ServerMessage::AgreeFileDownload { name: "f".to_owned(), size: 250, id: 0 },
            "(Server) Sure, I'm ready to give you f (250 bytes, #0)",
        ),
        (
            ServerMessage::DeclineFileDownload { name: "f".to_owned(), reason: "No".to_owned() },
            "(Server) Nah, I won't give you f. No",
        ),
        (
            ServerMessage::Common { common: CommonMessage::Chunk { data: vec![], id: 0 } },
            "(Server) Here are some bytes for you",
        ),
    ];
    for (message, line) in cases {
        assert_eq!(message.describe_with("12:00"), line);
    }
}

#[test]
fn a_text_is_shown_with_the_time_of_the_clock_on_the_wall() {
    let message = ServerMessage::Text { text: "hi".to_owned(), name: "Bob".to_owned(), time: 0 };
    let line = message.describe();
    assert!(line.starts_with("<"));
    assert!(line.ends_with("> [Bob] hi"));
    assert!(line.contains("19"));
    let message =
        ServerMessage::Text { text: "hi".to_owned(), name: "Bob".to_owned(), time: i64::MAX };
    assert_eq!(message.describe(), "<> [Bob] hi");
    let message = ServerMessage::NewFile { name: "f".to_owned() };
    assert_eq!(message.describe(), "~~ And the new file is f ~~");
}

#[test]
fn messages_are_copied_field_by_field() {
    let message = ServerMessage::Text { text: "hi".to_owned(), name: "Bob".to_owned(), time: 4 };
    assert_eq!(format!("{:?}", message.copy()), format!("{:?}", message));
    let chunk = CommonMessage::Chunk { data: vec![1, 2], id: 3 };
    assert_eq!(format!("{:?}", chunk.copy()), format!("{:?}", chunk));
}

#[test]
fn errors_are_described() {
    assert_eq!(
        Error::new(ErrorKind::NothingToRead).describe(),
        "Shared Code Error > Unable to parse a message, closing the connection"
    );
    assert_eq!(ErrorKind::MessageSizeExceeded.describe(), "Message maximum size exceeded");
    assert_eq!(Error::io(IoKind::WouldBlock).kind.describe(), "Io > operation would block");
    assert_eq!(
        Error::malformed("odd").describe(),
        "Shared Code Error > Received a message with incorrect format > odd"
    );
    let failure = JsonFailure { io: None, ended: false, text: "bad".to_owned() };
    assert_eq!(Error::json(failure).describe(), "Shared Code Error > Parsing JSON > bad");
    assert_eq!(IoKind::Other.describe(), "other error");
    assert_eq!(IoKind::UnexpectedEof.describe(), "unexpected end of file");
    assert_eq!(IoKind::Interrupted.describe(), "operation interrupted");
    assert_eq!(IoKind::InvalidData.describe(), "invalid data");
}

#[test]
fn a_json_failure_with_an_io_kind_is_an_io_error() {
    let failure = JsonFailure { io: Some(IoKind::Other), ended: false, text: "bad".to_owned() };
    assert!(matches!(Error::json(failure).kind, ErrorKind::Io { source: IoKind::Other }));
    let failure = JsonFailure { io: None, ended: true, text: "bad".to_owned() };
    assert!(matches!(Error::json(failure).kind, ErrorKind::ParsingJson { .. }));
}

#[test]
fn would_block_is_told_apart() {
    assert!(is_would_block_error(&Error::io(IoKind::WouldBlock)));
    assert!(!is_would_block_error(&Error::io(IoKind::Other)));
    assert!(!is_would_block_error(&Error::new(ErrorKind::NothingToRead)));
}

#[test]
fn the_cap_counts_what_is_taken() {
    let mut cap = CappedReader::new(10);
    assert_eq!(cap.limit(), 10);
    assert_eq!(cap.space_left(), 10);
    assert_eq!(cap.allowance(4).unwrap(), 4);
    assert_eq!(cap.allowance(40).unwrap(), 10);
    assert!(matches!(
        kind_of(cap.allowance(0)),
        ErrorKind::Io { source: IoKind::InvalidData }
    ));
    cap.advance(6);
    assert_eq!(cap.space_left(), 4);
    assert_eq!(cap.read(&[1, 2, 3], 8).unwrap(), 3);
    assert_eq!(cap.read(&[1, 2, 3], 8).unwrap(), 1);
    assert!(matches!(
        kind_of(cap.read(&[1, 2, 3], 8)),
        ErrorKind::Io { source: IoKind::InvalidData }
    ));
    cap.clear();
    assert_eq!(cap.space_left(), 10);
    assert_eq!(cap.read(&[1, 2, 3], 2).unwrap(), 2);
}

#[test]
fn json_reader_reads_the_first_value() {
    let mut reader = JsonReader::new(CappedReader::new(100));
    let (value, taken) = reader.read_message(b" {\"a\": [1, 2]} {\"b\": 3}").unwrap();
    assert_eq!(taken, 14);
    assert_eq!(value["a"][1], 2);
    let (value, taken) = reader.read_message(b" {\"b\": 3}").unwrap();
    assert_eq!(taken, 9);
    assert_eq!(value["b"], 3);
}

#[test]
fn json_reader_has_nothing_to_read_in_blanks() {
    let mut reader = JsonReader::new(CappedReader::new(100));
    assert!(matches!(kind_of(reader.read_message(b"")), ErrorKind::NothingToRead));
    assert!(matches!(kind_of(reader.read_message(b"  \n")), ErrorKind::NothingToRead));
}

#[test]
fn json_reader_keeps_the_parser_within_the_cap() {
    let mut reader = JsonReader::new(CappedReader::new(8));
    assert!(matches!(
        kind_of(reader.read_message(b"{\"a\": [1, 2]}")),
        ErrorKind::Io { source: IoKind::InvalidData }
    ));
    assert!(matches!(
        kind_of(reader.read_message(b"          ")),
        ErrorKind::Io { source: IoKind::InvalidData }
    ));
    let (_, taken) = reader.read_message(b"[1, 2] [3, 4]").unwrap();
    assert_eq!(taken, 6);
    let mut none = JsonReader::new(CappedReader::new(0));
    assert!(matches!(
        kind_of(none.read_message(b"1")),
        ErrorKind::Io { source: IoKind::InvalidData }
    ));
}

#[test]
fn json_reader_tells_a_value_cut_short_from_bad_text() {
    let mut reader = JsonReader::new(CappedReader::new(100));
    match kind_of(reader.read_message(b"{\"a\": ")) {
        ErrorKind::ParsingJson { source } => {
            assert!(source.ended);
            assert!(source.io.is_none());
            assert!(source.text.starts_with("EOF while parsing"));
        }
        other => panic!("unexpected kind {:?}", other),
    }
    match kind_of(reader.read_message(b"{a}")) {
        ErrorKind::ParsingJson { source } => assert!(!source.ended),
        other => panic!("unexpected kind {:?}", other),
    }
}

#[test]
fn json_writer_writes_the_text_of_the_value() {
    let mut reader = JsonReader::new(CappedReader::new(100));
    let (value, _) = reader.read_message(b"{ \"a\" : [1,  true, \"x\"] }").unwrap();
    let mut writer = JsonWriter::new();
    let bytes = writer.write_message(&value).unwrap();
    assert_eq!(bytes, b"{\"a\":[1,true,\"x\"]}".to_vec());
}

#[test]
fn errors_come_from_their_kinds() {
    let error: Error = ErrorKind::NothingToRead.into();
    assert!(matches!(error.kind, ErrorKind::NothingToRead));
    let error: Error = IoKind::ConnectionReset.into();
    assert!(matches!(error.kind, ErrorKind::Io { source: IoKind::ConnectionReset }));
    let failure = JsonFailure { io: None, ended: false, text: "bad".to_owned() };
    let error: Error = failure.into();
    assert!(matches!(error.kind, ErrorKind::ParsingJson { .. }));
}
