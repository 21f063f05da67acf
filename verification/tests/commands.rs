use chat::client::commands::{
    check_download, check_upload, file_name, is_blank, parse, parse_command, parse_connect,
    parse_download, parse_rename, parse_text, parse_upload, parse_words, CharsReader, Command,
};
use chat::connection::messages::{MAXIMUM_NAME_SIZE, MAXIMUM_TEXT_SIZE};

fn reader(input: &str) -> CharsReader {
    CharsReader::new(input.chars().collect())
}

fn one(input: &str) -> Command {
    parse(&mut reader(input))
}

fn words(line: &[&str]) -> Vec<String> {
    line.iter().map(|it| it.to_string()).collect()
}

#[test]
fn a_plain_line_is_a_text() {
    match one("hello there\n") {
        Command::Text { text } => assert_eq!(text, "hello there"),
        other => panic!("unexpected command {:?}", other),
    }
}

#[test]
fn a_line_without_a_line_feed_is_a_text_too() {
    match one("hi") {
        Command::Text { text } => assert_eq!(text, "hi"),
        other => panic!("unexpected command {:?}", other),
    }
}

#[test]
fn carriage_returns_are_passed_over() {
    match one("h\ri\r\n") {
        Command::Text { text } => assert_eq!(text, "hi"),
        other => panic!("unexpected command {:?}", other),
    }
    match one("/re\rname B\rob\r\n") {
        Command::Rename { new_name } => assert_eq!(new_name, "Bob"),
        other => panic!("unexpected command {:?}", other),
    }
}

#[test]
fn an_empty_line_is_nothing() {
    assert!(matches!(one("\n"), Command::Nothing));
    assert!(matches!(one("\r\n"), Command::Nothing));
}

#[test]
fn the_end_of_the_input_ends_the_session() {
    assert!(matches!(one(""), Command::End));
}

#[test]
fn quit_in_three_spellings() {
    assert!(matches!(one("/q\n"), Command::End));
    assert!(matches!(one("/quit\n"), Command::End));
    assert!(matches!(one("/exit\n"), Command::End));
    assert!(matches!(one("/quit now\n"), Command::End));
}

#[test]
fn rename_takes_the_next_word() {
    match one("/rename Bob\n") {
        Command::Rename { new_name } => assert_eq!(new_name, "Bob"),
        other => panic!("unexpected command {:?}", other),
    }
    match one("/r  Bob the builder\n") {
        Command::Rename { new_name } => assert_eq!(new_name, "Bob"),
        other => panic!("unexpected command {:?}", other),
    }
}

#[test]
fn rename_without_a_name_is_nothing() {
    assert!(matches!(one("/rename\n"), Command::Nothing));
}

#[test]
fn rename_with_a_blank_behind_it_asks_for_the_empty_name() {
    match one("/rename \n") {
        Command::Rename { new_name } => assert_eq!(new_name, ""),
        other => panic!("unexpected command {:?}", other),
    }
}

#[test]
fn rename_checks_the_bound() {
    let at_bound = format!("/rename {}\n", "n".repeat(MAXIMUM_NAME_SIZE));
    assert!(matches!(one(&at_bound), Command::Rename { .. }));
    let above = format!("/rename {}\n", "n".repeat(MAXIMUM_NAME_SIZE + 1));
    assert!(matches!(one(&above), Command::Nothing));
}

#[test]
fn connect_fills_in_host_and_port() {
    match one("/connect\n") {
        Command::Connect { address } => assert_eq!(address, "localhost:6969"),
        other => panic!("unexpected command {:?}", other),
    }
    match one("/c example.org\n") {
        Command::Connect { address } => assert_eq!(address, "example.org:6969"),
        other => panic!("unexpected command {:?}", other),
    }
    match one("/c example.org 7000 more\n") {
        Command::Connect { address } => assert_eq!(address, "example.org:7000"),
        other => panic!("unexpected command {:?}", other),
    }
}

#[test]
fn upload_names_the_file_after_the_last_part_of_its_path() {
    match one("/upload in.bin out.bin\n") {
        Command::UploadFile { name, path } => {
            assert_eq!(path, "in.bin");
            assert_eq!(name, "out.bin");
        }
        other => panic!("unexpected command {:?}", other),
    }
    match one("/u some/dir/in.bin\n") {
        Command::UploadFile { name, path } => {
            assert_eq!(path, "some/dir/in.bin");
            assert_eq!(name, "in.bin");
        }
        other => panic!("unexpected command {:?}", other),
    }
    assert!(matches!(one("/upload\n"), Command::Nothing));
}

#[test]
fn download_saves_under_the_name_unless_a_path_is_given() {
    match one("/download out.bin got.bin\n") {
        Command::DownloadFile { name, path } => {
            assert_eq!(name, "out.bin");
            assert_eq!(path, "got.bin");
        }
        other => panic!("unexpected command {:?}", other),
    }
    match one("/d out.bin\n") {
        Command::DownloadFile { name, path } => {
            assert_eq!(name, "out.bin");
            assert_eq!(path, "out.bin");
        }
        other => panic!("unexpected command {:?}", other),
    }
    assert!(matches!(one("/d\n"), Command::Nothing));
}

#[test]
fn a_lone_slash_and_an_unknown_command_are_nothing() {
    assert!(matches!(one("/\n"), Command::Nothing));
    assert!(matches!(one("/ rename Bob\n"), Command::Nothing));
    assert!(matches!(one("/dance\n"), Command::Nothing));
}

#[test]
fn text_checks_the_bound() {
    let at_bound = format!("{}\n", "x".repeat(MAXIMUM_TEXT_SIZE));
    assert!(matches!(one(&at_bound), Command::Text { .. }));
    let above = format!("{}\n", "x".repeat(MAXIMUM_TEXT_SIZE + 1));
    assert!(matches!(one(&above), Command::Nothing));
}

#[test]
fn lines_are_read_one_after_the_other() {
    let mut input = reader("first\n/r Bob\n\nlast");
    assert!(matches!(parse(&mut input), Command::Text { .. }));
    assert!(matches!(parse(&mut input), Command::Rename { .. }));
    assert!(matches!(parse(&mut input), Command::Nothing));
    match parse(&mut input) {
        Command::Text { text } => assert_eq!(text, "last"),
        other => panic!("unexpected command {:?}", other),
    }
    assert!(matches!(parse(&mut input), Command::End));
    assert!(matches!(parse(&mut input), Command::End));
}

#[test]
fn reader_peeks_without_taking() {
    let mut input = reader("ab");
    assert_eq!(input.peek(), Some('a'));
    assert_eq!(input.next(), Some('a'));
    assert_eq!(input.next(), Some('b'));
    assert_eq!(input.peek(), None);
    assert_eq!(input.next(), None);
}

#[test]
fn blanks() {
    for symbol in ['\r', '\n', '\t', ' '] {
        assert!(is_blank(symbol));
    }
    assert!(!is_blank('a'));
    assert!(!is_blank('/'));
}

#[test]
fn words_are_set_apart_by_blanks_and_tabs() {
    assert_eq!(parse_words(&mut reader("/u  a\tb\nrest")), words(&["/u", "a", "b"]));
    assert_eq!(parse_words(&mut reader("")), words(&[""]));
    assert_eq!(parse_words(&mut reader("  x ")), words(&["x", ""]));
    assert_eq!(parse_words(&mut reader("é ü")), words(&["é", "ü"]));
}

#[test]
fn parse_words_stops_behind_the_line_feed() {
    let mut input = reader("a b\nc");
    parse_words(&mut input);
    assert_eq!(input.peek(), Some('c'));
}

#[test]
fn parse_text_and_parse_command_take_one_line() {
    let mut input = reader("one\n/q\nthree");
    assert!(matches!(parse_text(&mut input), Command::Text { .. }));
    assert!(matches!(parse_command(&mut input), Command::End));
    assert_eq!(input.peek(), Some('t'));
}

#[test]
fn the_parts_of_a_command_line() {
    assert!(matches!(parse_rename(&words(&["/r"])), Command::Nothing));
    assert!(matches!(parse_rename(&words(&["/r", "x"])), Command::Rename { .. }));
    assert!(matches!(parse_connect(&words(&["/c"])), Command::Connect { .. }));
    assert!(matches!(parse_upload(&words(&["/u"])), Command::Nothing));
    assert!(matches!(parse_upload(&words(&["/u", "a"])), Command::UploadFile { .. }));
    assert!(matches!(parse_download(&words(&["/d"])), Command::Nothing));
    assert!(matches!(parse_download(&words(&["/d", "a"])), Command::DownloadFile { .. }));
}

#[test]
fn file_name_is_what_follows_the_last_slash() {
    assert_eq!(file_name("a/b/c.txt"), "c.txt");
    assert_eq!(file_name("c.txt"), "c.txt");
    assert_eq!(file_name("a/b/"), "");
    assert_eq!(file_name(""), "");
    assert_eq!(file_name("/x"), "x");
}

#[test]
fn upload_needs_the_file_and_download_needs_it_not_to_be() {
    assert!(matches!(
        check_upload("p".to_owned(), "n".to_owned(), true),
        Command::UploadFile { .. }
    ));
    assert!(matches!(check_upload("p".to_owned(), "n".to_owned(), false), Command::Nothing));
    assert!(matches!(check_download("p".to_owned(), "n".to_owned(), true), Command::Nothing));
    match check_download("p".to_owned(), "n".to_owned(), false) {
        Command::DownloadFile { name, path } => {
            assert_eq!(name, "n");
            assert_eq!(path, "p");
        }
        other => panic!("unexpected command {:?}", other),
    }
}
