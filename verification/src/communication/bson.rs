//! Documents, their frames on the wire, and the readers and the writer that
//! move them.
//!
//! A frame is four bytes that give the length of the whole frame, least
//! significant byte first, and then the document's body.

use crate::capped_reader::{CappedRead, CappedReader};
use crate::communication::{ReadMessage, WriteMessage};
use crate::communication::fields::{length_at, length_bytes, put_length, take_length};
use crate::errors::{is_would_block_error, Error, ErrorKind, IoKind, Result};
use vstd::bytes::*;
use vstd::prelude::*;
use vstd::slice::*;

verus! {

/// One message as it travels: the bytes of its body.
#[derive(Debug)]
pub struct Document {
    pub body: Vec<u8>,
}

impl View for Document {
    type V = Seq<u8>;

    open spec fn view(&self) -> Seq<u8> {
        self.body@
    }
}

/// Whether a body is short enough for its frame's length to fit in four
/// bytes.
pub open spec fn frameable(body: Seq<u8>) -> bool {
    body.len() + 4 <= u32::MAX
}

/// The frame of a body.
pub open spec fn framed(body: Seq<u8>) -> Seq<u8> {
    length_bytes((body.len() + 4) as u32) + body
}

/// The length that the front of `bytes` announces, once four bytes are
/// there.
pub open spec fn announced(bytes: Seq<u8>) -> Option<nat> {
    match length_at(bytes, 0) {
        Some((length, _)) => Some(length as nat),
        None => None,
    }
}

/// The ways in which the front of some bytes stands to a frame.
pub enum Framing {
    /// The bytes end before the frame does.
    Short,
    /// The announced length does not even cover the four bytes that give
    /// it.
    Malformed,
    /// A whole frame of `size` bytes is there.
    Whole { size: nat },
}

/// What reading one frame from the front of `bytes` comes to.
pub open spec fn framing(bytes: Seq<u8>) -> Framing {
    match announced(bytes) {
        None => Framing::Short,
        Some(size) => if size < 4 {
            Framing::Malformed
        } else if bytes.len() < size {
            Framing::Short
        } else {
            Framing::Whole { size }
        },
    }
}

/// The length that a frame announces is the number of its bytes, and the
/// frame reads back as its body.
pub proof fn lemma_frame_announces_its_length(body: Seq<u8>)
    requires
        frameable(body),
    ensures
        framed(body).len() == body.len() + 4,
        announced(framed(body)) == Some(framed(body).len()),
        framing(framed(body)) == (Framing::Whole { size: framed(body).len() }),
        framed(body).subrange(4, framed(body).len() as int) == body,
{
    lemma_auto_spec_u32_to_from_le_bytes();
    let frame = framed(body);
    let length = (body.len() + 4) as u32;
    assert(spec_u32_to_le_bytes(length).len() == 4);
    assert(frame.subrange(0, 4) =~= length_bytes(length));
    crate::communication::fields::lemma_length_at(frame, 0, length);
    assert(frame.subrange(4, frame.len() as int) =~= body);
}

/// A frame followed by anything reads as the same whole frame.
pub proof fn lemma_frame_then_more(body: Seq<u8>, more: Seq<u8>)
    requires
        frameable(body),
    ensures
        framing(framed(body) + more) == (Framing::Whole { size: framed(body).len() }),
        (framed(body) + more).subrange(4, framed(body).len() as int) == body,
        (framed(body) + more).subrange(
            framed(body).len() as int,
            (framed(body) + more).len() as int,
        ) == more,
{
    lemma_frame_announces_its_length(body);
    let frame = framed(body);
    let all = frame + more;
    assert(all.subrange(0, 4) =~= frame.subrange(0, 4));
    assert(all.subrange(4, frame.len() as int) =~= frame.subrange(4, frame.len() as int));
    assert(all.subrange(frame.len() as int, all.len() as int) =~= more);
}

impl Document {
    /// The document with the given body.
    pub fn new(body: Vec<u8>) -> (document: Document)
        ensures
            document@ == body@,
    {
        Document { body }
    }

    /// The document's frame, unless the body is too long for one.
    pub fn frame(&self) -> (frame: Result<Vec<u8>>)
        ensures
            match frame {
                Ok(bytes) => {
                    &&& frameable(self@)
                    &&& bytes@ == framed(self@)
                    &&& announced(bytes@) == Some(bytes@.len())
                },
                Err(error) => {
                    &&& !frameable(self@)
                    &&& error.kind == ErrorKind::MessageSizeExceeded
                },
            },
    {
        if self.body.len() > 0xffff_fffb {
            return Err(Error::new(ErrorKind::MessageSizeExceeded));
        }
        let mut bytes: Vec<u8> = Vec::new();
        put_length(&mut bytes, (self.body.len() + 4) as u32);
        bytes.extend_from_slice(self.body.as_slice());
        proof {
            assert(bytes@ =~= framed(self@));
            lemma_frame_announces_its_length(self@);
        }
        Ok(bytes)
    }
}

/// Reads one document from the front of `reader`. Where the bytes end
/// before the frame does, there is nothing to read; a frame whose length
/// does not cover its own first four bytes is malformed.
pub fn from_reader_with_checked_errors(reader: &[u8]) -> (read: Result<Document>)
    ensures
        match framing(reader@) {
            Framing::Short => read matches Err(error) && error.kind == ErrorKind::NothingToRead,
            Framing::Malformed => read matches Err(error) && error.kind is MalformedMessage,
            Framing::Whole { size } => read matches Ok(document) && document@
                == reader@.subrange(4, size as int),
        },
{
    match take_length(reader, 0) {
        None => Err(Error::new(ErrorKind::NothingToRead)),
        Some((length, _)) => {
            if length < 4 {
                Err(Error::malformed("the frame is shorter than its own length"))
            } else if (reader.len() as u64) < length as u64 {
                Err(Error::new(ErrorKind::NothingToRead))
            } else {
                let body = slice_to_vec(slice_subrange(reader, 4, length as usize));
                Ok(Document { body })
            }
        },
    }
}

/// Turns documents into frames.
pub struct BsonWriter {}

impl BsonWriter {
    /// A writer of documents.
    pub fn new() -> (writer: BsonWriter) {
        BsonWriter {  }
    }
}

impl WriteMessage<Document> for BsonWriter {
    /// The frame of `message`, whole or not at all: what the caller puts on
    /// the wire in one piece. The length in front of it is the number of its
    /// bytes. A body too long for a frame is refused.
    fn write_message(&mut self, message: &Document) -> (frame: Result<Vec<u8>>)
        ensures
            match frame {
                Ok(bytes) => {
                    &&& frameable(message@)
                    &&& bytes@ == framed(message@)
                    &&& announced(bytes@) == Some(bytes@.len())
                },
                Err(error) => {
                    &&& !frameable(message@)
                    &&& error.kind == ErrorKind::MessageSizeExceeded
                },
            },
    {
        message.frame()
    }
}

/// The ways in which the front of a scanner's buffer stands to a frame.
pub enum Scan {
    /// No whole frame is there yet.
    Wait,
    /// The announced length is above what a message may have.
    TooLong,
    /// The announced length does not even cover the four bytes that give
    /// it.
    Malformed,
    /// A whole frame of `size` bytes is there.
    Ready { size: nat },
}

/// What the front of a scanner's buffer comes to, for frames of at most
/// `capacity` bytes.
pub open spec fn scan(buffer: Seq<u8>, capacity: nat) -> Scan {
    match announced(buffer) {
        None => Scan::Wait,
        Some(size) => if size > capacity {
            Scan::TooLong
        } else if size < 4 {
            Scan::Malformed
        } else if buffer.len() < size {
            Scan::Wait
        } else {
            Scan::Ready { size }
        },
    }
}

/// What is left in the buffer after a scan: all of it, unless a whole frame
/// was there, which leaves.
pub open spec fn after_scan(buffer: Seq<u8>, capacity: nat) -> Seq<u8> {
    match scan(buffer, capacity) {
        Scan::Ready { size } => buffer.subrange(size as int, buffer.len() as int),
        _ => buffer,
    }
}

/// The ways in which reading a message fails, as far as a contract tells
/// them apart.
pub enum Failure {
    WouldBlock,
    NothingToRead,
    SizeExceeded,
    Malformed,
    Io(IoKind),
}

/// Whether an error is of the given kind of failure.
pub open spec fn fails_as(error: Error, failure: Failure) -> bool {
    match failure {
        Failure::WouldBlock => error.kind == (ErrorKind::Io { source: IoKind::WouldBlock }),
        Failure::NothingToRead => error.kind == ErrorKind::NothingToRead,
        Failure::SizeExceeded => error.kind == ErrorKind::MessageSizeExceeded,
        Failure::Malformed => error.kind is MalformedMessage,
        Failure::Io(kind) => error.kind == (ErrorKind::Io { source: kind }),
    }
}

/// What a scan of `buffer` hands out: the body of the frame in front, or
/// the way in which it fails.
pub open spec fn scan_gives(buffer: Seq<u8>, capacity: nat) -> core::result::Result<
    Seq<u8>,
    Failure,
> {
    match scan(buffer, capacity) {
        Scan::Wait => Err(Failure::WouldBlock),
        Scan::TooLong => Err(Failure::SizeExceeded),
        Scan::Malformed => Err(Failure::Malformed),
        Scan::Ready { size } => Ok(buffer.subrange(4, size as int)),
    }
}

/// What one read of the stream leads to, for a scanner that holds `buffer`:
/// what it hands out, and what it holds afterwards.
pub open spec fn arrival(
    buffer: Seq<u8>,
    capacity: nat,
    incoming: core::result::Result<Seq<u8>, IoKind>,
) -> (core::result::Result<Seq<u8>, Failure>, Seq<u8>) {
    match incoming {
        Err(IoKind::ConnectionReset) => (Err(Failure::NothingToRead), buffer),
        Err(IoKind::WouldBlock) => (scan_gives(buffer, capacity), after_scan(buffer, capacity)),
        Err(kind) => (Err(Failure::Io(kind)), buffer),
        Ok(data) => {
            let joined = buffer + data;
            if joined.len() > capacity {
                (Err(Failure::Io(IoKind::InvalidData)), buffer)
            } else if data.len() == 0 && scan(joined, capacity) is Wait {
                (Err(Failure::NothingToRead), buffer)
            } else {
                (scan_gives(joined, capacity), after_scan(joined, capacity))
            }
        },
    }
}

/// A frame that comes in one piece to a scanner that holds nothing, and
/// whose cap it does not exceed, comes out as its body at once, and the
/// scanner holds nothing afterwards.
pub proof fn lemma_frame_arrives(body: Seq<u8>, capacity: nat)
    requires
        frameable(body),
        framed(body).len() <= capacity,
    ensures
        arrival(Seq::empty(), capacity, Ok(framed(body))) == (
            Ok::<Seq<u8>, Failure>(body),
            Seq::<u8>::empty(),
        ),
{
    let frame = framed(body);
    lemma_frame_announces_its_length(body);
    assert(Seq::<u8>::empty() + frame =~= frame);
    assert(frame.subrange(frame.len() as int, frame.len() as int) =~= Seq::<u8>::empty());
}

/// A frame that comes in two pieces comes out with the second: after the
/// first piece the scanner waits and keeps it.
pub proof fn lemma_frame_arrives_in_pieces(body: Seq<u8>, capacity: nat, cut: int)
    requires
        frameable(body),
        framed(body).len() <= capacity,
        0 < cut < framed(body).len(),
    ensures
        arrival(Seq::empty(), capacity, Ok(framed(body).subrange(0, cut))) == (
            Err::<Seq<u8>, Failure>(Failure::WouldBlock),
            framed(body).subrange(0, cut),
        ),
        arrival(
            framed(body).subrange(0, cut),
            capacity,
            Ok(framed(body).subrange(cut, framed(body).len() as int)),
        ) == (Ok::<Seq<u8>, Failure>(body), Seq::<u8>::empty()),
{
    let frame = framed(body);
    let first = frame.subrange(0, cut);
    let second = frame.subrange(cut, frame.len() as int);
    lemma_frame_announces_its_length(body);
    assert(Seq::<u8>::empty() + first =~= first);
    assert(first + second =~= frame);
    assert(frame.subrange(frame.len() as int, frame.len() as int) =~= Seq::<u8>::empty());
    if cut >= 4 {
        assert(first.subrange(0, 4) =~= frame.subrange(0, 4));
    }
}

/// Nothing is lost and nothing is made up: when bytes come in, the frame of
/// the body that is handed out, followed by what the scanner holds
/// afterwards, is what it held before followed by what came. While it
/// waits, it holds all of that.
pub proof fn lemma_nothing_is_lost(buffer: Seq<u8>, capacity: nat, data: Seq<u8>)
    requires
        buffer.len() + data.len() <= capacity,
    ensures
        match arrival(buffer, capacity, Ok(data)).0 {
            Ok(body) => frameable(body) && framed(body) + arrival(buffer, capacity, Ok(data)).1
                == buffer + data,
            Err(Failure::WouldBlock) => arrival(buffer, capacity, Ok(data)).1 == buffer + data,
            Err(_) => true,
        },
{
    let joined = buffer + data;
    match scan(joined, capacity) {
        Scan::Ready { size } => {
            lemma_auto_spec_u32_to_from_le_bytes();
            let head = joined.subrange(0, 4);
            let body = joined.subrange(4, size as int);
            let rest = joined.subrange(size as int, joined.len() as int);
            assert(spec_u32_to_le_bytes(spec_u32_from_le_bytes(head)) == head);
            assert(framed(body) + rest =~= joined);
        },
        _ => {},
    }
}

/// Whether `read` hands out the given body, or fails in the given way.
pub open spec fn delivers(read: Result<Document>, given: core::result::Result<Seq<u8>, Failure>)
    -> bool {
    match given {
        Ok(body) => read matches Ok(document) && document@ == body,
        Err(failure) => read matches Err(error) && fails_as(error, failure),
    }
}

/// What comes in, with the bytes as a sequence.
pub open spec fn seen(incoming: core::result::Result<Vec<u8>, IoKind>) -> core::result::Result<
    Seq<u8>,
    IoKind,
> {
    match incoming {
        Ok(data) => Ok(data@),
        Err(kind) => Err(kind),
    }
}

/// Finds documents in what comes from a stream that does not wait: it keeps
/// the bytes that came until a whole frame is there.
pub struct BsonScanner {
    capacity: usize,
    buffer: Vec<u8>,
}

impl BsonScanner {
    /// The most bytes that a frame may have, and that are ever kept.
    pub closed spec fn capacity(&self) -> usize {
        self.capacity
    }

    /// The bytes that came and have not left as a document yet.
    pub closed spec fn buffered(&self) -> Seq<u8> {
        self.buffer@
    }

    #[verifier::type_invariant]
    closed spec fn fits(&self) -> bool {
        self.buffer@.len() <= self.capacity
    }

    /// A scanner with an empty buffer, for frames of at most `cap` bytes.
    pub fn new(cap: usize) -> (scanner: BsonScanner)
        ensures
            scanner.capacity() == cap,
            scanner.buffered() == Seq::<u8>::empty(),
    {
        BsonScanner { capacity: cap, buffer: Vec::new() }
    }

    /// How many bytes the next read may fetch: the room that the buffer has
    /// left.
    pub fn space_left(&self) -> (space: usize)
        ensures
            self.buffered().len() <= self.capacity(),
            space == self.capacity() - self.buffered().len(),
    {
        proof {
            use_type_invariant(self);
        }
        self.capacity - self.buffer.len()
    }

    /// The length that the frame in front announces, once its four bytes
    /// are there.
    pub fn try_fetch_size(&self) -> (size: Option<usize>)
        ensures
            match size {
                Some(it) => announced(self.buffered()) == Some(it as nat),
                None => announced(self.buffered()) is None,
            },
    {
        match take_length(self.buffer.as_slice(), 0) {
            Some((length, _)) => Some(length as usize),
            None => None,
        }
    }

    /// Hands out the document in front, if its whole frame is there, and
    /// drops the frame from the buffer. A frame that announces more than
    /// the cap is refused as soon as its length is there. Without a whole
    /// frame there is nothing to do yet, and the buffer stays.
    pub fn parse(&mut self) -> (read: Result<Document>)
        ensures
            final(self).capacity() == old(self).capacity(),
            delivers(read, scan_gives(old(self).buffered(), old(self).capacity() as nat)),
            final(self).buffered() == after_scan(
                old(self).buffered(),
                old(self).capacity() as nat,
            ),
    {
        proof {
            use_type_invariant(&*self);
        }
        match self.try_fetch_size() {
            None => Err(Error::io(IoKind::WouldBlock)),
            Some(size) => {
                if size > self.capacity {
                    Err(Error::new(ErrorKind::MessageSizeExceeded))
                } else if size < 4 {
                    Err(Error::malformed("the frame is shorter than its own length"))
                } else if self.buffer.len() < size {
                    Err(Error::io(IoKind::WouldBlock))
                } else {
                    let read = from_reader_with_checked_errors(self.buffer.as_slice());
                    let rest = slice_to_vec(
                        slice_subrange(self.buffer.as_slice(), size, self.buffer.len()),
                    );
                    self.buffer = rest;
                    read
                }
            },
        }
    }
}

impl ReadMessage<Document> for BsonScanner {
    /// Takes in what one read of the stream gave, and hands out the next
    /// document if its whole frame is there.
    ///
    /// `Ok` holds the bytes that the read fetched, none where the peer has
    /// closed the stream; `Err` holds the kind of a read that failed. A read
    /// that would have had to wait still lets a frame out that stands whole
    /// in the buffer. After a reset there is nothing to read. After a close
    /// a whole frame in the buffer still comes out; without one there is
    /// nothing to read. More bytes than the buffer has room for are refused
    /// as invalid data.
    fn read_message(&mut self, incoming: core::result::Result<Vec<u8>, IoKind>) -> (read:
        Result<Document>)
        ensures
            final(self).capacity() == old(self).capacity(),
            delivers(
                read,
                arrival(old(self).buffered(), old(self).capacity() as nat, seen(incoming)).0,
            ),
            final(self).buffered() == arrival(
                old(self).buffered(),
                old(self).capacity() as nat,
                seen(incoming),
            ).1,
    {
        match incoming {
            Err(IoKind::ConnectionReset) => Err(Error::new(ErrorKind::NothingToRead)),
            Err(IoKind::WouldBlock) => self.parse(),
            Err(kind) => Err(Error::io(kind)),
            Ok(data) => {
                if data.len() > self.space_left() {
                    return Err(Error::io(IoKind::InvalidData));
                }
                let closed = data.len() == 0;
                let mut joined = slice_to_vec(self.buffer.as_slice());
                joined.extend_from_slice(data.as_slice());
                self.buffer = joined;
                assert(self.buffer@ =~= old(self).buffered() + data@);
                let read = self.parse();
                if closed {
                    assert(old(self).buffered() + data@ =~= old(self).buffered());
                    match read {
                        Err(error) => {
                            if is_would_block_error(&error) {
                                Err(Error::new(ErrorKind::NothingToRead))
                            } else {
                                Err(error)
                            }
                        },
                        Ok(document) => Ok(document),
                    }
                } else {
                    read
                }
            },
        }
    }
}

/// The ways in which the front of a reader's source stands to a frame and
/// to the cap.
pub enum Reading {
    /// The source ends before the frame does.
    Ended,
    /// The frame goes on beyond what a message may take.
    Capped,
    /// The announced length does not even cover the four bytes that give
    /// it.
    Malformed,
    /// A whole frame of `size` bytes is there and within the cap.
    Whole { size: nat },
}

/// What a reader finds in front of `source`, when the message at hand may
/// still take `space` bytes.
pub open spec fn reading(source: Seq<u8>, space: nat) -> Reading {
    let short = if space <= source.len() {
        Reading::Capped
    } else {
        Reading::Ended
    };
    if space < 4 || source.len() < 4 {
        short
    } else {
        let size = announced(source)->0;
        if size < 4 {
            Reading::Malformed
        } else if space < size || source.len() < size {
            short
        } else {
            Reading::Whole { size }
        }
    }
}

/// Reads documents one at a time from bytes that are all there, and lets
/// none take more than the cap.
pub struct BsonReader {
    stream: CappedReader,
}

impl BsonReader {
    /// The cap's book.
    pub closed spec fn stream(&self) -> CappedReader {
        self.stream
    }

    /// A reader that lets no document take more than `cap` bytes.
    pub fn new(cap: usize) -> (reader: BsonReader)
        ensures
            reader.stream().capacity() == cap,
            reader.stream().offset() == 0,
    {
        BsonReader { stream: CappedReader::new(cap) }
    }

    /// Reads the document in front of `reader` and says how many bytes its
    /// frame took. After a document the cap counts anew. A frame that goes
    /// on beyond the cap is refused as invalid data; where the bytes end
    /// before the frame does, there is nothing to read. A reading that
    /// fails leaves the book as it is.
    pub fn read_message(&mut self, reader: &[u8]) -> (read: Result<(Document, usize)>)
        ensures
            final(self).stream().capacity() == old(self).stream().capacity(),
            old(self).stream().offset() <= old(self).stream().capacity(),
            match reading(
                reader@,
                (old(self).stream().capacity() - old(self).stream().offset()) as nat,
            ) {
                Reading::Ended => {
                    &&& read matches Err(error) && error.kind == ErrorKind::NothingToRead
                    &&& final(self).stream().offset() == old(self).stream().offset()
                },
                Reading::Capped => {
                    &&& read matches Err(error) && error.kind == (ErrorKind::Io {
                        source: IoKind::InvalidData,
                    })
                    &&& final(self).stream().offset() == old(self).stream().offset()
                },
                Reading::Malformed => {
                    &&& read matches Err(error) && error.kind is MalformedMessage
                    &&& final(self).stream().offset() == old(self).stream().offset()
                },
                Reading::Whole { size } => {
                    &&& read matches Ok((document, taken)) && taken == size && document@
                        == reader@.subrange(4, size as int)
                    &&& final(self).stream().offset() == 0
                },
            },
    {
        let space = self.stream.space_left();
        let capped = space <= reader.len();
        if space < 4 || reader.len() < 4 {
            return Err(Self::short(capped));
        }
        match take_length(reader, 0) {
            None => Err(Self::short(capped)),
            Some((length, _)) => {
                if length < 4 {
                    Err(Error::malformed("the frame is shorter than its own length"))
                } else if (space as u64) < length as u64 || (reader.len() as u64) < length as u64 {
                    Err(Self::short(capped))
                } else {
                    let read = from_reader_with_checked_errors(reader)?;
                    self.stream.clear();
                    Ok((read, length as usize))
                }
            },
        }
    }

    fn short(capped: bool) -> (error: Error)
        ensures
            error.kind == if capped {
                ErrorKind::Io { source: IoKind::InvalidData }
            } else {
                ErrorKind::NothingToRead
            },
    {
        if capped {
            Error::io(IoKind::InvalidData)
        } else {
            Error::new(ErrorKind::NothingToRead)
        }
    }
}

} // verus!
