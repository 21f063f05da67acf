use chat::client::commands::{parse, CharsReader, CommandProcessing};
use chat::client::{
    command_file_request, handle_server_message_with, handle_user_command_at, Effects,
};
use chat::communication::arson::{ArsonScanner, ArsonWriter};
use chat::communication::{MessageProcessing, ReadMessage, WriteMessage};
use chat::connection::helpers::{
    chunk_of, chunk_span, process_sending_sharers_at, Attempt, Delivery,
};
use chat::connection::messages::{
    ClientMessage, ServerMessage, CHUNK_SIZE, MAXIMUM_MESSAGE_SIZE,
};
use chat::connection::{Context, FileRequest, Opened};
use chat::errors::is_would_block_error;
use chat::server::connection::{setup_names_mapping, ServerContext};
use chat::server::{file_request, handle_client_message, join, Reaction};
use chat::shared_map::SharedMap;

const A: &str = "127.0.0.1:5001";
const B: &str = "127.0.0.1:5002";

/// The files of one side: names and contents. A handle is an index.
struct Disk {
    files: Vec<(String, Vec<u8>)>,
}

impl Disk {
    fn new() -> Disk {
        Disk { files: vec![] }
    }

    fn find(&self, path: &str) -> Option<usize> {
        self.files.iter().position(|it| it.0 == path)
    }

    fn put(&mut self, path: &str, content: Vec<u8>) {
        self.files.push((path.to_owned(), content));
    }

    fn perform(&mut self, request: &FileRequest) -> Option<Opened<usize>> {
        match request {
            FileRequest::Create { path } => match self.find(path) {
                Some(_) => None,
                None => {
                    self.put(path, vec![]);
                    Some(Opened { file: self.files.len() - 1, size: 0 })
                }
            },
            FileRequest::Open { path } => {
                self.find(path).map(|at| Opened { file: at, size: self.files[at].1.len() })
            }
            _ => None,
        }
    }
}

/// One end of a connection: what it has to send lies in `wire` until the
/// other end reads it.
struct End {
    session: Context<usize>,
    scanner: ArsonScanner,
    writer: ArsonWriter,
    disk: Disk,
    wire: Vec<u8>,
    frames: Vec<usize>,
}

impl End {
    fn new() -> End {
        End {
            session: Context::new(),
            scanner: ArsonScanner::new(MAXIMUM_MESSAGE_SIZE),
            writer: ArsonWriter::new(),
            disk: Disk::new(),
            wire: vec![],
            frames: vec![],
        }
    }

    fn put_on_wire(&mut self, frame: Vec<u8>) {
        self.frames.push(frame.len());
        self.wire.extend(frame);
    }

    /// One read of at most the scanner's room from what the other end sent.
    fn read_from(&mut self, other: &mut Vec<u8>) -> Result<Vec<u8>, chat::errors::IoKind> {
        let count = other.len().min(self.scanner.space_left());
        if count == 0 {
            return Err(chat::errors::IoKind::WouldBlock);
        }
        Ok(other.drain(..count).collect())
    }

    /// One pass over the sending queue: every transfer tries one chunk.
    fn pump_client(&mut self) -> bool {
        let mut attempts = vec![];
        for index in 0..self.session.sending_sharers_queue().len() {
            let sharer = &self.session.sending_sharers_queue()[index];
            let span = chunk_span(sharer);
            let content = &self.disk.files[sharer.file].1;
            let data = content[span.offset..span.offset + span.length].to_vec();
            let read = data.len();
            let message = ClientMessage::Common { common: chunk_of(sharer, data) };
            let frame = self.writer.write_message(&message).unwrap();
            self.frames.push(frame.len());
            self.wire.extend(frame);
            attempts.push(Attempt { read, delivery: Delivery::Sent });
        }
        process_sending_sharers_at(&mut self.session, &attempts, 0).did_something
    }

    fn pump_server(&mut self) -> bool {
        let mut attempts = vec![];
        for index in 0..self.session.sending_sharers_queue().len() {
            let sharer = &self.session.sending_sharers_queue()[index];
            let span = chunk_span(sharer);
            let content = &self.disk.files[sharer.file].1;
            let data = content[span.offset..span.offset + span.length].to_vec();
            let read = data.len();
            let message = ServerMessage::Common { common: chunk_of(sharer, data) };
            let frame = self.writer.write_message(&message).unwrap();
            self.frames.push(frame.len());
            self.wire.extend(frame);
            attempts.push(Attempt { read, delivery: Delivery::Sent });
        }
        process_sending_sharers_at(&mut self.session, &attempts, 0).did_something
    }
}

/// What the user of the client types, as the command's effects.
fn type_line(client: &mut End, line: &str) -> Effects {
    let mut input = CharsReader::new(line.chars().collect());
    let command = parse(&mut input);
    let request = command_file_request(&command, true);
    let opened = client.disk.perform(&request);
    let mut connection = Some(std::mem::replace(&mut client.session, Context::new()));
    let (processing, effects) = handle_user_command_at(&command, &mut connection, opened, 0);
    assert!(matches!(processing, CommandProcessing::Proceed));
    client.session = connection.unwrap();
    if let Some(message) = &effects.send {
        let frame = client.writer.write_message(message).unwrap();
        client.put_on_wire(frame);
    }
    effects
}

/// The server reads what the client sent, message by message, and deals
/// with each; its answers to the client go on its own wire.
fn serve(
    room: &mut ServerContext<()>,
    server: &mut End,
    client: &mut End,
    address: &str,
) -> Vec<Reaction> {
    let mut reactions = vec![];
    loop {
        let incoming = server.read_from(&mut client.wire);
        let read: Result<ClientMessage, _> = server.scanner.read_message(incoming);
        let message = match read {
            Ok(message) => message,
            Err(error) => {
                assert!(is_would_block_error(&error));
                break;
            }
        };
        let request = file_request(&server.session, &message);
        let opened = server.disk.perform(&request);
        if let FileRequest::Store { id, count } = &request {
            let file = server.session.sharer(*id).unwrap().file;
            if let ClientMessage::Common { common } = &message {
                let chat::connection::messages::CommonMessage::Chunk { data, .. } = common;
                server.disk.files[file].1.extend_from_slice(&data[..*count]);
            }
        }
        let reaction =
            handle_client_message(room, &mut server.session, address, &message, opened, 0);
        for outgoing in &reaction.outgoing {
            if outgoing.recipients.iter().any(|it| it == address) {
                let frame = server.writer.write_message(&outgoing.message).unwrap();
                server.put_on_wire(frame);
            }
        }
        reactions.push(reaction);
    }
    reactions
}

/// The client reads what the server sent, message by message.
fn listen(client: &mut End, server: &mut End) -> Vec<(ServerMessage, Effects)> {
    let mut heard = vec![];
    loop {
        let incoming = client.read_from(&mut server.wire);
        let read: Result<ServerMessage, _> = client.scanner.read_message(incoming);
        let message = match read {
            Ok(message) => message,
            Err(error) => {
                assert!(is_would_block_error(&error));
                break;
            }
        };
        let request = chat::client::file_request(&client.session, &message);
        if let FileRequest::Store { id, count } = &request {
            let file = client.session.sharer(*id).unwrap().file;
            if let ServerMessage::Common { common } = &message {
                let chat::connection::messages::CommonMessage::Chunk { data, .. } = common;
                client.disk.files[file].1.extend_from_slice(&data[..*count]);
            }
        }
        let effects = handle_server_message_with(&mut client.session, &message, "");
        if let Some(message) = &effects.send {
            let frame = client.writer.write_message(message).unwrap();
            client.put_on_wire(frame);
        }
        heard.push((message, effects));
    }
    heard
}

fn content(length: usize) -> Vec<u8> {
    (0..length).map(|it| (it * 7 % 251) as u8).collect()
}

fn upload(
    room: &mut ServerContext<()>,
    server: &mut End,
    client: &mut End,
    address: &str,
    length: usize,
) -> Vec<Reaction> {
    client.disk.put("in.bin", content(length));
    type_line(client, "/upload in.bin out.bin\n");
    let mut reactions = serve(room, server, client, address);
    listen(client, server);
    let mut rounds = 0;
    while client.pump_client() {
        reactions.extend(serve(room, server, client, address));
        rounds += 1;
        assert!(rounds < 100);
    }
    reactions
}

#[test]
fn upload_round_trip() {
    let mut room: ServerContext<()> = ServerContext::new(setup_names_mapping(), SharedMap::new());
    join(&mut room, A, (), 0);
    join(&mut room, B, (), 0);
    let mut server = End::new();
    let mut client = End::new();
    client.disk.put("in.bin", content(250));

    let effects = type_line(&mut client, "/upload in.bin out.bin\n");
    match effects.send.as_ref().unwrap() {
        ClientMessage::RequestFileUpload { name, size, id } => {
            assert_eq!(name, "out.bin");
            assert_eq!(*size, 250);
            assert_eq!(*id, 0);
        }
        other => panic!("unexpected message {:?}", other),
    }

    let reactions = serve(&mut room, &mut server, &mut client, A);
    assert_eq!(reactions.len(), 1);
    assert!(matches!(reactions[0].outgoing[0].message, ServerMessage::AgreeFileUpload { id: 0 }));
    assert_eq!(reactions[0].outgoing[0].recipients, vec![A.to_owned()]);

    let heard = listen(&mut client, &mut server);
    assert_eq!(heard.len(), 1);
    assert!(matches!(heard[0].0, ServerMessage::AgreeFileUpload { id: 0 }));
    assert_eq!(client.session.sending_sharers_queue().len(), 1);

    let mut chunks = vec![];
    let mut news = vec![];
    while !client.session.sending_sharers_queue().is_empty() {
        chunks.push(chunk_span(&client.session.sending_sharers_queue()[0]).length);
        assert!(client.pump_client());
        for reaction in serve(&mut room, &mut server, &mut client, A) {
            assert_eq!(reaction.processing, MessageProcessing::Proceed);
            news.extend(reaction.outgoing);
        }
    }
    assert_eq!(chunks, vec![100, 100, 50]);
    assert_eq!(news.len(), 1);
    match &news[0].message {
        ServerMessage::NewFile { name } => assert_eq!(name, "out.bin"),
        other => panic!("unexpected message {:?}", other),
    }
    assert_eq!(news[0].recipients, vec![A.to_owned(), B.to_owned()]);
    let stored = server.disk.find("out.bin").unwrap();
    assert_eq!(server.disk.files[stored].1, content(250));
    assert!(server.session.sharer(0).is_none());
    assert!(!client.pump_client());
}

#[test]
fn download() {
    let mut room: ServerContext<()> = ServerContext::new(setup_names_mapping(), SharedMap::new());
    join(&mut room, B, (), 0);
    let mut server = End::new();
    let mut client = End::new();
    server.disk.put("out.bin", content(250));

    let effects = type_line(&mut client, "/download out.bin got.bin\n");
    assert!(matches!(effects.send, Some(ClientMessage::RequestFileDownload { .. })));

    let reactions = serve(&mut room, &mut server, &mut client, B);
    match &reactions[0].outgoing[0].message {
        ServerMessage::AgreeFileDownload { name, size, id } => {
            assert_eq!(name, "out.bin");
            assert_eq!(*size, 250);
            assert_eq!(*id, 0);
        }
        other => panic!("unexpected message {:?}", other),
    }

    let heard = listen(&mut client, &mut server);
    assert!(matches!(heard[0].1.send, Some(ClientMessage::AgreeFileDownload { id: 0 })));

    let reactions = serve(&mut room, &mut server, &mut client, B);
    assert!(reactions[0].outgoing.is_empty());
    assert_eq!(server.session.sending_sharers_queue().len(), 1);

    let mut chunks = 0;
    let mut lines = vec![];
    while server.pump_server() {
        chunks += 1;
        for (_, effects) in listen(&mut client, &mut server) {
            lines.extend(effects.print);
        }
    }
    assert_eq!(chunks, 3);
    assert_eq!(lines, vec!["(Console) Downloaded out.bin and saved to got.bin".to_owned()]);
    let got = client.disk.find("got.bin").unwrap();
    assert_eq!(client.disk.files[got].1, content(250));
}

#[test]
fn the_bytes_of_the_chunks_add_up_to_the_advertised_size() {
    for length in [0usize, 1, 99, 100, 101, 250, 1000] {
        let mut room: ServerContext<()> =
            ServerContext::new(setup_names_mapping(), SharedMap::new());
        join(&mut room, A, (), 0);
        let mut server = End::new();
        let mut client = End::new();
        let reactions = upload(&mut room, &mut server, &mut client, A, length);
        let stored = server.disk.find("out.bin").unwrap();
        assert_eq!(server.disk.files[stored].1, content(length));
        let announced = reactions
            .iter()
            .flat_map(|it| it.outgoing.iter())
            .filter(|it| matches!(it.message, ServerMessage::NewFile { .. }))
            .count();
        assert_eq!(announced, 1);
        assert!(server.session.sharer(0).is_none());
        assert!(client.session.sending_sharers_queue().is_empty());
    }
}

#[test]
fn bytes_beyond_the_advertised_size_are_dropped() {
    let mut room: ServerContext<()> = ServerContext::new(setup_names_mapping(), SharedMap::new());
    join(&mut room, A, (), 0);
    let mut server = End::new();
    let mut client = End::new();
    let request = ClientMessage::RequestFileUpload { name: "out.bin".to_owned(), size: 30, id: 0 };
    let frame = client.writer.write_message(&request).unwrap();
    client.put_on_wire(frame);
    let chunk = ClientMessage::Common {
        common: chat::connection::messages::CommonMessage::Chunk { data: content(100), id: 0 },
    };
    let frame = client.writer.write_message(&chunk).unwrap();
    client.put_on_wire(frame);
    let reactions = serve(&mut room, &mut server, &mut client, A);
    assert_eq!(reactions.len(), 2);
    assert!(matches!(reactions[1].outgoing[0].message, ServerMessage::NewFile { .. }));
    let stored = server.disk.find("out.bin").unwrap();
    assert_eq!(server.disk.files[stored].1, content(100)[..30].to_vec());
}

#[test]
fn an_upload_over_a_file_that_is_there_is_declined() {
    let mut room: ServerContext<()> = ServerContext::new(setup_names_mapping(), SharedMap::new());
    join(&mut room, A, (), 0);
    let mut server = End::new();
    let mut client = End::new();
    server.disk.put("out.bin", vec![1, 2, 3]);
    client.disk.put("in.bin", content(10));
    type_line(&mut client, "/upload in.bin out.bin\n");
    let reactions = serve(&mut room, &mut server, &mut client, A);
    assert!(matches!(
        reactions[0].outgoing[0].message,
        ServerMessage::DeclineFileUpload { id: 0, .. }
    ));
    let heard = listen(&mut client, &mut server);
    assert_eq!(
        heard[0].1.print.as_deref(),
        Some("(Server) Nah, wait with your #out.bin. There's already a file with such a name")
    );
    assert!(client.session.sharer(0).is_none());
    assert_eq!(server.disk.files[0].1, vec![1, 2, 3]);
}

#[test]
fn every_frame_of_a_transfer_fits_in_a_message() {
    let mut room: ServerContext<()> = ServerContext::new(setup_names_mapping(), SharedMap::new());
    join(&mut room, A, (), 0);
    let mut server = End::new();
    let mut client = End::new();
    upload(&mut room, &mut server, &mut client, A, 1000);
    assert!(client.frames.len() >= 11);
    for length in client.frames.iter().chain(server.frames.iter()) {
        assert!(*length <= MAXIMUM_MESSAGE_SIZE);
    }
    assert_eq!(*client.frames.iter().max().unwrap(), 4 + 1 + 1 + 4 + CHUNK_SIZE + 8);
}
