//! What the user types, line by line, and the commands that the lines
//! stand for.

use crate::communication::DEFAULT_PORT;
use crate::connection::messages::{MAXIMUM_NAME_SIZE, MAXIMUM_TEXT_SIZE};
use crate::text::{byte_len, characters, decimal, decimal_digits, same_text, text_len};
use vstd::prelude::*;
use vstd::string::*;

verus! {

/// What a line of the user stands for.
#[derive(Debug)]
pub enum Command {
    Nothing,
    End,
    Text { text: String },
    Rename { new_name: String },
    Connect { address: String },
    UploadFile { name: String, path: String },
    DownloadFile { name: String, path: String },
}

/// A command with its texts as sequences of characters.
pub enum CommandView {
    Nothing,
    End,
    Text { text: Seq<char> },
    Rename { new_name: Seq<char> },
    Connect { address: Seq<char> },
    UploadFile { name: Seq<char>, path: Seq<char> },
    DownloadFile { name: Seq<char>, path: Seq<char> },
}

impl View for Command {
    type V = CommandView;

    open spec fn view(&self) -> CommandView {
        match self {
            Command::Nothing => CommandView::Nothing,
            Command::End => CommandView::End,
            Command::Text { text } => CommandView::Text { text: text@ },
            Command::Rename { new_name } => CommandView::Rename { new_name: new_name@ },
            Command::Connect { address } => CommandView::Connect { address: address@ },
            Command::UploadFile { name, path } => CommandView::UploadFile {
                name: name@,
                path: path@,
            },
            Command::DownloadFile { name, path } => CommandView::DownloadFile {
                name: name@,
                path: path@,
            },
        }
    }
}

/// What the loop does after a command.
#[derive(Debug)]
pub enum CommandProcessing {
    Proceed,
    Stop,
    /// A connection to the given address is to be made.
    Connect(String),
}

/// The user's input, character by character.
pub struct CharsReader {
    chars: Vec<char>,
    at: usize,
}

impl CharsReader {
    #[verifier::type_invariant]
    closed spec fn within(&self) -> bool {
        self.at <= self.chars@.len()
    }

    /// What has not been read yet.
    pub closed spec fn remaining(&self) -> Seq<char> {
        self.chars@.subrange(self.at as int, self.chars@.len() as int)
    }

    /// A reader in front of the given characters.
    pub fn new(chars: Vec<char>) -> (reader: CharsReader)
        ensures
            reader.remaining() == chars@,
    {
        let reader = CharsReader { chars, at: 0 };
        assert(reader.remaining() =~= chars@);
        reader
    }

    /// The next character, which stays where it is.
    pub fn peek(&self) -> (symbol: Option<char>)
        ensures
            symbol == if self.remaining().len() > 0 {
                Some(self.remaining()[0])
            } else {
                None
            },
    {
        proof {
            use_type_invariant(self);
        }
        if self.at < self.chars.len() {
            Some(self.chars[self.at])
        } else {
            None
        }
    }

    /// Takes the next character.
    pub fn next(&mut self) -> (symbol: Option<char>)
        ensures
            symbol == if old(self).remaining().len() > 0 {
                Some(old(self).remaining()[0])
            } else {
                None
            },
            final(self).remaining() == if old(self).remaining().len() > 0 {
                old(self).remaining().drop_first()
            } else {
                old(self).remaining()
            },
    {
        proof {
            use_type_invariant(&*self);
        }
        if self.at < self.chars.len() {
            let symbol = self.chars[self.at];
            self.at = self.at + 1;
            assert(self.remaining() =~= old(self).remaining().drop_first());
            Some(symbol)
        } else {
            None
        }
    }
}

/// Whether a character only sets words apart.
pub fn is_blank(symbol: char) -> (blank: bool)
    ensures
        blank == (symbol == '\r' || symbol == '\n' || symbol == '\t' || symbol == ' '),
{
    symbol == '\r' || symbol == '\n' || symbol == '\t' || symbol == ' '
}

/// The input up to its first line feed, or all of it where it has none.
pub open spec fn first_line(input: Seq<char>) -> Seq<char>
    decreases input.len(),
{
    if input.len() == 0 || input[0] == '\n' {
        Seq::empty()
    } else {
        seq![input[0]] + first_line(input.drop_first())
    }
}

/// The input behind its first line feed; nothing where it has none.
pub open spec fn after_first_line(input: Seq<char>) -> Seq<char>
    decreases input.len(),
{
    if input.len() == 0 {
        Seq::empty()
    } else if input[0] == '\n' {
        input.drop_first()
    } else {
        after_first_line(input.drop_first())
    }
}

/// A line without its carriage returns.
pub open spec fn without_returns(line: Seq<char>) -> Seq<char>
    decreases line.len(),
{
    if line.len() == 0 {
        Seq::empty()
    } else if line[0] == '\r' {
        without_returns(line.drop_first())
    } else {
        seq![line[0]] + without_returns(line.drop_first())
    }
}

/// The words so far with one more character: a carriage return is passed
/// over, a blank starts a new word unless the last one is empty, and any
/// other character goes to the last word.
pub open spec fn with_symbol(words: Seq<Seq<char>>, symbol: char) -> Seq<Seq<char>> {
    if symbol == '\r' {
        words
    } else if symbol == '\t' || symbol == ' ' {
        if words.last().len() != 0 {
            words.push(Seq::empty())
        } else {
            words
        }
    } else {
        words.update(words.len() - 1, words.last().push(symbol))
    }
}

/// The words so far with the characters of a line.
pub open spec fn with_line(words: Seq<Seq<char>>, line: Seq<char>) -> Seq<Seq<char>>
    decreases line.len(),
{
    if line.len() == 0 {
        words
    } else {
        with_line(with_symbol(words, line[0]), line.drop_first())
    }
}

/// The words of a line. There is always a first word, which may be empty;
/// blanks at the end of the line leave an empty last word.
pub open spec fn words_of(line: Seq<char>) -> Seq<Seq<char>> {
    with_line(seq![Seq::empty()], line)
}

/// The words as sequences of characters.
pub open spec fn spelled(words: Seq<String>) -> Seq<Seq<char>> {
    Seq::new(words.len(), |i: int| words[i]@)
}

/// What stands behind the last slash of a path; the path where it has none.
pub open spec fn base_name(path: Seq<char>) -> Seq<char>
    decreases path.len(),
{
    if path.len() == 0 {
        Seq::empty()
    } else if path.last() == '/' {
        Seq::empty()
    } else {
        base_name(path.drop_last()).push(path.last())
    }
}

/// The address that `/connect` stands for.
pub open spec fn connect_address(words: Seq<Seq<char>>) -> Seq<char> {
    if words.len() >= 3 {
        words[1] + ":"@ + words[2]
    } else if words.len() >= 2 {
        words[1] + ":"@ + decimal_digits(DEFAULT_PORT as nat)
    } else {
        "localhost:"@ + decimal_digits(DEFAULT_PORT as nat)
    }
}

/// The command that `/rename` stands for.
pub open spec fn rename_of(words: Seq<Seq<char>>) -> CommandView {
    if words.len() >= 2 && byte_len(words[1]) <= MAXIMUM_NAME_SIZE {
        CommandView::Rename { new_name: words[1] }
    } else {
        CommandView::Nothing
    }
}

/// The command that `/upload` stands for.
pub open spec fn upload_of(words: Seq<Seq<char>>) -> CommandView {
    if words.len() >= 3 {
        CommandView::UploadFile { path: words[1], name: words[2] }
    } else if words.len() >= 2 {
        CommandView::UploadFile { path: words[1], name: base_name(words[1]) }
    } else {
        CommandView::Nothing
    }
}

/// The command that `/download` stands for.
pub open spec fn download_of(words: Seq<Seq<char>>) -> CommandView {
    if words.len() >= 3 {
        CommandView::DownloadFile { path: words[2], name: words[1] }
    } else if words.len() >= 2 {
        CommandView::DownloadFile { path: words[1], name: words[1] }
    } else {
        CommandView::Nothing
    }
}

/// The command that the words of a line stand for, when the line's first
/// character is a slash.
pub open spec fn command_of(words: Seq<Seq<char>>) -> CommandView {
    let first = words[0];
    if first == "/"@ {
        CommandView::Nothing
    } else if first == "/q"@ || first == "/quit"@ || first == "/exit"@ {
        CommandView::End
    } else if first == "/rename"@ || first == "/r"@ {
        rename_of(words)
    } else if first == "/connect"@ || first == "/c"@ {
        CommandView::Connect { address: connect_address(words) }
    } else if first == "/upload"@ || first == "/u"@ {
        upload_of(words)
    } else if first == "/download"@ || first == "/d"@ {
        download_of(words)
    } else {
        CommandView::Nothing
    }
}

/// The command that a line of plain text stands for: the text without its
/// carriage returns, unless it is empty or above the bound.
pub open spec fn text_of(line: Seq<char>) -> CommandView {
    let text = without_returns(line);
    if text.len() == 0 || byte_len(text) > MAXIMUM_TEXT_SIZE {
        CommandView::Nothing
    } else {
        CommandView::Text { text }
    }
}

/// The command that the user's next line stands for; the end of the input
/// ends the session.
pub open spec fn parsed(input: Seq<char>) -> CommandView {
    if input.len() == 0 {
        CommandView::End
    } else if input[0] == '/' {
        command_of(words_of(first_line(input)))
    } else {
        text_of(first_line(input))
    }
}

/// What stands behind the last slash of `path`.
pub fn file_name(path: &str) -> (name: String)
    ensures
        name@ == base_name(path@),
{
    let chars = characters(path);
    let mut name = String::new();
    let mut at: usize = 0;
    while at < chars.len()
        invariant
            at <= chars@.len(),
            chars@ == path@,
            name@ == base_name(chars@.subrange(0, at as int)),
        decreases chars@.len() - at,
    {
        let symbol = chars[at];
        proof {
            let longer = chars@.subrange(0, at + 1);
            assert(longer.drop_last() =~= chars@.subrange(0, at as int));
            assert(longer.last() == symbol);
        }
        if symbol == '/' {
            name = String::new();
        } else {
            name.push(symbol);
        }
        at += 1;
    }
    assert(chars@.subrange(0, at as int) =~= chars@);
    name
}

/// The command that `/rename` and what follows it stand for.
pub fn parse_rename(words: &Vec<String>) -> (command: Command)
    requires
        words@.len() >= 1,
    ensures
        command@ == rename_of(spelled(words@)),
{
    if words.len() >= 2 {
        if text_len(words[1].as_str()) > MAXIMUM_NAME_SIZE {
            Command::Nothing
        } else {
            Command::Rename { new_name: words[1].clone() }
        }
    } else {
        Command::Nothing
    }
}

/// The command that `/connect` and what follows it stand for: the host and
/// the port that are given, and else this machine and the usual port.
pub fn parse_connect(words: &Vec<String>) -> (command: Command)
    requires
        words@.len() >= 1,
    ensures
        command@ == (CommandView::Connect { address: connect_address(spelled(words@)) }),
{
    let address = if words.len() >= 3 {
        words[1].clone().concat(":").concat(words[2].as_str())
    } else if words.len() >= 2 {
        words[1].clone().concat(":").concat(decimal(DEFAULT_PORT as usize).as_str())
    } else {
        "localhost:".to_owned().concat(decimal(DEFAULT_PORT as usize).as_str())
    };
    Command::Connect { address }
}

/// The upload of the file at `path` under `name`, if the file is there.
pub fn check_upload(path: String, name: String, present: bool) -> (command: Command)
    ensures
        command@ == if present {
            (CommandView::UploadFile { path: path@, name: name@ })
        } else {
            CommandView::Nothing
        },
{
    if !present {
        return Command::Nothing;
    }
    Command::UploadFile { path, name }
}

/// The command that `/upload` and what follows it stand for: the path, and
/// the name for the file, which is the last part of the path unless one is
/// given.
pub fn parse_upload(words: &Vec<String>) -> (command: Command)
    requires
        words@.len() >= 1,
    ensures
        command@ == upload_of(spelled(words@)),
{
    if words.len() >= 3 {
        check_upload(words[1].clone(), words[2].clone(), true)
    } else if words.len() >= 2 {
        check_upload(words[1].clone(), file_name(words[1].as_str()), true)
    } else {
        Command::Nothing
    }
}

/// The download of `name` to `path`, unless a file is there already.
pub fn check_download(path: String, name: String, present: bool) -> (command: Command)
    ensures
        command@ == if present {
            CommandView::Nothing
        } else {
            (CommandView::DownloadFile { path: path@, name: name@ })
        },
{
    if present {
        return Command::Nothing;
    }
    Command::DownloadFile { path, name }
}

/// The command that `/download` and what follows it stand for: the name of
/// the file, and the path to save it at, which is the name unless one is
/// given.
pub fn parse_download(words: &Vec<String>) -> (command: Command)
    requires
        words@.len() >= 1,
    ensures
        command@ == download_of(spelled(words@)),
{
    if words.len() >= 3 {
        check_download(words[2].clone(), words[1].clone(), false)
    } else if words.len() >= 2 {
        check_download(words[1].clone(), words[1].clone(), false)
    } else {
        Command::Nothing
    }
}

/// Reads the words of the next line, and the line with them.
pub fn parse_words(input: &mut CharsReader) -> (words: Vec<String>)
    ensures
        words@.len() >= 1,
        spelled(words@) == words_of(first_line(old(input).remaining())),
        final(input).remaining() == after_first_line(old(input).remaining()),
{
    let mut words: Vec<String> = Vec::new();
    words.push(String::new());
    assert(spelled(words@) =~= seq![Seq::<char>::empty()]);
    loop
        invariant
            words@.len() >= 1,
            with_line(spelled(words@), first_line(input.remaining())) == words_of(
                first_line(old(input).remaining()),
            ),
            after_first_line(input.remaining()) == after_first_line(old(input).remaining()),
        decreases input.remaining().len(),
    {
        let ghost before = input.remaining();
        let ghost known = spelled(words@);
        match input.next() {
            None => {
                return words;
            },
            Some(symbol) => {
                if symbol == '\n' {
                    return words;
                }
                proof {
                    let line = first_line(before);
                    assert(line.drop_first() =~= first_line(before.drop_first()));
                    assert(line[0] == symbol);
                }
                if symbol == '\r' {
                } else if is_blank(symbol) {
                    let last = words.len() - 1;
                    assert(known.last() == words@[last as int]@);
                    if !words[last].as_str().is_empty() {
                        words.push(String::new());
                        assert(spelled(words@) =~= known.push(Seq::empty()));
                    }
                } else {
                    let mut word = words.pop().unwrap();
                    assert(known.last() == word@);
                    word.push(symbol);
                    words.push(word);
                    assert(spelled(words@) =~= known.update(
                        known.len() - 1,
                        known.last().push(symbol),
                    ));
                }
                assert(spelled(words@) == with_symbol(known, symbol));
            },
        }
    }
}

fn is_word(word: &String, wanted: &str) -> (same: bool)
    ensures
        same == (word@ == wanted@),
{
    same_text(word.as_str(), wanted)
}

/// Reads the next line, which starts with a slash, and says which command
/// it stands for.
pub fn parse_command(input: &mut CharsReader) -> (command: Command)
    ensures
        command@ == command_of(words_of(first_line(old(input).remaining()))),
        final(input).remaining() == after_first_line(old(input).remaining()),
{
    let words = parse_words(input);
    let ghost known = spelled(words@);
    assert(known[0] == words@[0]@);
    assert(words@.len() >= 2 ==> known[1] == words@[1]@);
    assert(words@.len() >= 3 ==> known[2] == words@[2]@);
    let first = &words[0];
    if is_word(first, "/") {
        Command::Nothing
    } else if is_word(first, "/q") || is_word(first, "/quit") || is_word(first, "/exit") {
        Command::End
    } else if is_word(first, "/rename") || is_word(first, "/r") {
        parse_rename(&words)
    } else if is_word(first, "/connect") || is_word(first, "/c") {
        parse_connect(&words)
    } else if is_word(first, "/upload") || is_word(first, "/u") {
        parse_upload(&words)
    } else if is_word(first, "/download") || is_word(first, "/d") {
        parse_download(&words)
    } else {
        Command::Nothing
    }
}

/// Reads the next line as plain text.
pub fn parse_text(input: &mut CharsReader) -> (command: Command)
    ensures
        command@ == text_of(first_line(old(input).remaining())),
        final(input).remaining() == after_first_line(old(input).remaining()),
{
    let mut line = String::new();
    loop
        invariant_except_break
            line@ + without_returns(first_line(input.remaining())) == without_returns(
                first_line(old(input).remaining()),
            ),
            after_first_line(input.remaining()) == after_first_line(old(input).remaining()),
        ensures
            line@ == without_returns(first_line(old(input).remaining())),
            input.remaining() == after_first_line(old(input).remaining()),
        decreases input.remaining().len(),
    {
        let ghost before = input.remaining();
        let ghost known = line@;
        match input.next() {
            None => {
                assert(line@ =~= known + without_returns(first_line(before)));
                assert(after_first_line(before) =~= before);
                break ;
            },
            Some(symbol) => {
                if symbol == '\n' {
                    assert(line@ =~= known + without_returns(first_line(before)));
                    break ;
                }
                proof {
                    let rest = first_line(before);
                    assert(rest.drop_first() =~= first_line(before.drop_first()));
                    assert(rest[0] == symbol);
                }
                if symbol != '\r' {
                    line.push(symbol);
                    assert(line@ + without_returns(first_line(input.remaining())) =~= known
                        + without_returns(first_line(before)));
                }
            },
        }
    }
    if line.as_str().is_empty() {
        Command::Nothing
    } else if text_len(line.as_str()) > MAXIMUM_TEXT_SIZE {
        Command::Nothing
    } else {
        Command::Text { text: line }
    }
}

/// Reads the user's next line and says which command it stands for. At the
/// end of the input the session ends.
pub fn parse(input: &mut CharsReader) -> (command: Command)
    ensures
        command@ == parsed(old(input).remaining()),
        final(input).remaining() == after_first_line(old(input).remaining()),
{
    match input.peek() {
        Some(symbol) => {
            if symbol == '/' {
                parse_command(input)
            } else {
                parse_text(input)
            }
        },
        None => Command::End,
    }
}

} // verus!
