//! Sending files piece by piece: each pass over the transfers that are
//! being sent gives every one of them the chance to send one chunk.
//!
//! The caller does the reading and the writing. For each transfer in the
//! queue it asks for the span to read, reads it, has the chunk framed,
//! tries to put the frame on the wire, and notes what became of the try.
//! With the notes of one pass the queue is brought up to date.

use crate::clock::now;
use crate::connection::messages::{CommonMessage, CHUNK_SIZE};
use crate::connection::sharers::{at_most, FileSharer};
use crate::connection::Context;
use vstd::prelude::*;
use vstd::string::*;

verus! {

/// What became of the try to put one chunk on the wire.
#[derive(Debug, Clone, Copy, PartialEq, Eq, Structural)]
pub enum Delivery {
    /// The whole frame is on the wire.
    Sent,
    /// The wire took nothing now; the chunk is to be sent again.
    WouldBlock,
    /// The file could not be read or the wire is broken: the transfer is
    /// given up.
    Failed,
}

/// One try to send a chunk: how many bytes of the file it carried and what
/// became of it.
#[derive(Debug, Clone, Copy)]
pub struct Attempt {
    pub read: usize,
    pub delivery: Delivery,
}

/// Where in its file a transfer's next chunk lies.
#[derive(Debug, Clone, Copy)]
pub struct Span {
    pub offset: usize,
    pub length: usize,
}

/// A line of progress to be shown: the file's name and how much of it is
/// sent, in hundredths.
#[derive(Debug)]
pub struct Progress {
    pub name: String,
    pub percent: u8,
}

/// How much of a transfer is done, in hundredths; an empty transfer is done.
pub open spec fn progress_of<H>(sharer: FileSharer<H>) -> int {
    if sharer.size == 0 {
        100
    } else {
        sharer.written * 100 / (sharer.size as int)
    }
}

/// A transfer after a chunk with `read` bytes of its file has been sent at
/// time `now`: the bytes count as written, as far as the transfer has room,
/// and the time of the last report moves on where a report is due.
pub open spec fn sent_sharer<H>(sharer: FileSharer<H>, read: usize, now: i64) -> FileSharer<H> {
    FileSharer {
        written: (sharer.written + at_most(
            read as nat,
            (sharer.size - sharer.written) as nat,
        )) as usize,
        old_time_point: if sharer.report_due(now) {
            now
        } else {
            sharer.old_time_point
        },
        ..sharer
    }
}

/// A transfer after one try: unchanged unless the chunk was sent.
pub open spec fn tried_sharer<H>(sharer: FileSharer<H>, attempt: Attempt, now: i64) -> FileSharer<
    H,
> {
    if attempt.delivery == Delivery::Sent {
        sent_sharer(sharer, attempt.read, now)
    } else {
        sharer
    }
}

/// Whether a transfer stays in the queue after one try: it leaves when its
/// last byte is sent, and when the try failed for good.
pub open spec fn stays<H>(sharer: FileSharer<H>, attempt: Attempt, now: i64) -> bool {
    match attempt.delivery {
        Delivery::Sent => sent_sharer(sharer, attempt.read, now).written < sharer.size,
        Delivery::WouldBlock => true,
        Delivery::Failed => false,
    }
}

/// Whether a try leads to a line of progress: the chunk was sent and a
/// report is due.
pub open spec fn reports<H>(sharer: FileSharer<H>, attempt: Attempt, now: i64) -> bool {
    attempt.delivery == Delivery::Sent && sharer.report_due(now)
}

/// The queue after one pass: the transfers that stay, brought up to date,
/// in their order. A transfer without a try stays as it is.
pub open spec fn pumped<H>(queue: Seq<FileSharer<H>>, attempts: Seq<Attempt>, now: i64) -> Seq<
    FileSharer<H>,
>
    decreases queue.len(),
{
    if queue.len() == 0 {
        Seq::empty()
    } else {
        let last = queue.len() - 1;
        let before = pumped(queue.drop_last(), attempts, now);
        if last >= attempts.len() {
            before.push(queue[last])
        } else if stays(queue[last], attempts[last], now) {
            before.push(tried_sharer(queue[last], attempts[last], now))
        } else {
            before
        }
    }
}

/// The lines of progress of one pass, as names and hundredths, in the order
/// of the queue.
pub open spec fn reported<H>(queue: Seq<FileSharer<H>>, attempts: Seq<Attempt>, now: i64) -> Seq<
    (Seq<char>, int),
>
    decreases queue.len(),
{
    if queue.len() == 0 {
        Seq::empty()
    } else {
        let last = queue.len() - 1;
        let before = reported(queue.drop_last(), attempts, now);
        if last < attempts.len() && reports(queue[last], attempts[last], now) {
            before.push(
                (queue[last].name@, progress_of(tried_sharer(queue[last], attempts[last], now))),
            )
        } else {
            before
        }
    }
}

/// Whether any chunk of a pass was sent.
pub open spec fn any_sent(length: nat, attempts: Seq<Attempt>) -> bool {
    exists|i: int|
        0 <= i < length && i < attempts.len() && (#[trigger] attempts[i]).delivery
            == Delivery::Sent
}

/// What one pass came to.
#[derive(Debug)]
pub struct Pass {
    /// Whether any chunk was sent.
    pub did_something: bool,
    /// The lines of progress that are due.
    pub reports: Vec<Progress>,
}

impl Pass {
    /// The lines of progress as names and hundredths.
    pub open spec fn lines(&self) -> Seq<(Seq<char>, int)> {
        Seq::new(
            self.reports@.len(),
            |i: int| (self.reports@[i].name@, self.reports@[i].percent as int),
        )
    }
}

/// Where the transfer's next chunk lies in its file: it starts where the
/// last chunk that was sent ended, and has at most `CHUNK_SIZE` bytes, and
/// no more than the transfer still lacks.
pub fn chunk_span<H>(sharer: &FileSharer<H>) -> (span: Span)
    requires
        sharer.wf(),
    ensures
        span.offset == sharer.written,
        span.length == at_most(CHUNK_SIZE as nat, (sharer.size - sharer.written) as nat),
{
    Span { offset: sharer.written, length: sharer.room_for(CHUNK_SIZE) }
}

/// The chunk that carries `data` for the transfer.
pub fn chunk_of<H>(sharer: &FileSharer<H>, data: Vec<u8>) -> (chunk: CommonMessage)
    ensures
        chunk == (CommonMessage::Chunk { data, id: sharer.id }),
{
    CommonMessage::Chunk { data, id: sharer.id }
}

/// How much of the transfer is done, in hundredths.
pub fn progress<H>(sharer: &FileSharer<H>) -> (percent: u8)
    requires
        sharer.wf(),
    ensures
        percent == progress_of(*sharer),
        percent <= 100,
{
    if sharer.size == 0 {
        100
    } else {
        sharer.percentage()
    }
}

/// Notes what became of one try to send the transfer's next chunk. A chunk
/// that was sent counts as written; any other try leaves the transfer as it
/// is, so that the next chunk starts where this one did. Hands back the
/// hundredths to report, where a report is due.
pub fn send_chunk<H>(sharer: &mut FileSharer<H>, attempt: Attempt, now: i64) -> (report: Option<u8>)
    requires
        old(sharer).wf(),
    ensures
        final(sharer).wf(),
        *final(sharer) == tried_sharer(*old(sharer), attempt, now),
        report == if reports(*old(sharer), attempt, now) {
            Some(progress_of(*final(sharer)) as u8)
        } else {
            None
        },
        report is Some ==> report->0 == progress_of(*final(sharer)),
{
    match attempt.delivery {
        Delivery::Sent => {
            sharer.accept(attempt.read);
            if sharer.tick(now) {
                Some(progress(sharer))
            } else {
                None
            }
        },
        _ => None,
    }
}

/// Brings the queue of transfers that are being sent up to date after one
/// pass that ended at time `now`, given what became of the try for each of
/// them, in the queue's order. A transfer whose last byte is sent leaves the queue, and so does
/// one whose try failed for good; the others keep their order. Says whether
/// any chunk was sent.
pub fn process_sending_sharers_at<H>(
    connection: &mut Context<H>,
    attempts: &Vec<Attempt>,
    now: i64,
) -> (pass: Pass)
    requires
        old(connection).wf(),
    ensures
        final(connection).wf(),
        final(connection).reading_sharers == old(connection).reading_sharers,
        final(connection).nexd_id == old(connection).nexd_id,
        final(connection).sending_sharers@ == pumped(
            old(connection).sending_sharers@,
            attempts@,
            now,
        ),
        pass.did_something == any_sent(old(connection).sending_sharers@.len(), attempts@),
        pass.lines() == reported(old(connection).sending_sharers@, attempts@, now),
{
    let ghost queue = connection.sending_sharers@;
    let total = connection.sending_sharers.len();
    let mut done: usize = 0;
    let mut at: usize = 0;
    let mut did_something = false;
    let mut reports: Vec<Progress> = Vec::new();
    while at < connection.sending_sharers.len()
        invariant
            connection.wf(),
            connection.reading_sharers == old(connection).reading_sharers,
            connection.nexd_id == old(connection).nexd_id,
            queue == old(connection).sending_sharers@,
            queue.len() == total,
            at <= done <= queue.len(),
            connection.sending_sharers@.len() - at == queue.len() - done,
            connection.sending_sharers@.subrange(0, at as int) == pumped(
                queue.subrange(0, done as int),
                attempts@,
                now,
            ),
            connection.sending_sharers@.subrange(
                at as int,
                connection.sending_sharers@.len() as int,
            ) == queue.subrange(done as int, queue.len() as int),
            did_something == any_sent(done as nat, attempts@),
            (Pass { did_something, reports }).lines() == reported(
                queue.subrange(0, done as int),
                attempts@,
                now,
            ),
        decreases queue.len() - done,
    {
        let ghost before = connection.sending_sharers@;
        let ghost head = queue.subrange(0, done as int);
        let ghost next = queue.subrange(0, done + 1);
        let ghost lines = (Pass { did_something, reports }).lines();
        proof {
            assert(next.drop_last() =~= head);
            assert(next[done as int] == queue[done as int]);
            assert(done < queue.len());
            assert(queue.len() == old(connection).sending_sharers@.len());
            let tail = before.subrange(at as int, before.len() as int);
            assert forall|k: int| at <= k < before.len() implies #[trigger] before[k] == queue[k
                - at + done] by {
                assert(before[k] == tail[k - at]);
                assert(queue.subrange(done as int, queue.len() as int)[k - at] == queue[k - at
                    + done]);
            }
            assert(before[at as int] == queue[done as int]);
        }
        if done < attempts.len() {
            let attempt = attempts[done];
            let mut sharer = connection.sending_sharers.remove(at);
            let report = send_chunk(&mut sharer, attempt, now);
            match report {
                Some(percent) => {
                    reports.push(Progress { name: sharer.name.clone(), percent });
                    assert((Pass { did_something, reports }).lines() =~= lines.push(
                        (sharer.name@, percent as int),
                    ));
                },
                None => {
                    assert((Pass { did_something, reports }).lines() =~= lines);
                },
            }
            let sent = match attempt.delivery {
                Delivery::Sent => true,
                _ => false,
            };
            let failed = match attempt.delivery {
                Delivery::Failed => true,
                _ => false,
            };
            if sent {
                did_something = true;
            }
            assert((Pass { did_something, reports }).lines() =~= reported(next, attempts@, now));
            if failed || (sent && sharer.written >= sharer.size) {
                proof {
                    let after = connection.sending_sharers@;
                    assert(after.subrange(0, at as int) =~= before.subrange(0, at as int));
                    assert(after.subrange(at as int, after.len() as int) =~= queue.subrange(
                        done + 1,
                        queue.len() as int,
                    ));
                }
            } else {
                connection.sending_sharers.insert(at, sharer);
                proof {
                    let after = connection.sending_sharers@;
                    assert(after.subrange(0, at + 1) =~= before.subrange(0, at as int).push(
                        sharer,
                    ));
                    assert(after.subrange(at + 1, after.len() as int) =~= queue.subrange(
                        done + 1,
                        queue.len() as int,
                    ));
                }
                at += 1;
            }
        } else {
            proof {
                let after = connection.sending_sharers@;
                assert(after.subrange(0, at + 1) =~= before.subrange(0, at as int).push(
                    queue[done as int],
                ));
                assert(after.subrange(at + 1, after.len() as int) =~= queue.subrange(
                    done + 1,
                    queue.len() as int,
                ));
                assert((Pass { did_something, reports }).lines() =~= reported(
                    next,
                    attempts@,
                    now,
                ));
            }
            at += 1;
        }
        proof {
            if any_sent((done + 1) as nat, attempts@) {
                let i = choose|i: int|
                    0 <= i < done + 1 && i < attempts@.len() && (#[trigger] attempts@[i]).delivery
                        == Delivery::Sent;
                if i < done {
                    assert(any_sent(done as nat, attempts@));
                }
            }
            if did_something && !any_sent((done + 1) as nat, attempts@) {
                if any_sent(done as nat, attempts@) {
                    let i = choose|i: int|
                        0 <= i < done && i < attempts@.len() && (
                        #[trigger] attempts@[i]).delivery == Delivery::Sent;
                    assert(attempts@[i].delivery == Delivery::Sent);
                } else {
                    assert(attempts@[done as int].delivery == Delivery::Sent);
                }
            }
        }
        done += 1;
    }
    proof {
        assert(queue.subrange(0, done as int) =~= queue);
        assert(connection.sending_sharers@.subrange(0, at as int)
            =~= connection.sending_sharers@);
    }
    Pass { did_something, reports }
}

/// Brings the queue of transfers that are being sent up to date after one
/// pass that ends as this is called, given what became of the try for each
/// of them, in the queue's order.
pub fn process_sending_sharers<H>(connection: &mut Context<H>, attempts: &Vec<Attempt>) -> (pass:
    Pass)
    requires
        old(connection).wf(),
    ensures
        final(connection).wf(),
        final(connection).reading_sharers == old(connection).reading_sharers,
        final(connection).nexd_id == old(connection).nexd_id,
        pass.did_something == any_sent(old(connection).sending_sharers@.len(), attempts@),
        exists|time: i64|
            {
                &&& final(connection).sending_sharers@ == pumped(
                    old(connection).sending_sharers@,
                    attempts@,
                    time,
                )
                &&& pass.lines() == #[trigger] reported(
                    old(connection).sending_sharers@,
                    attempts@,
                    time,
                )
            },
{
    let time = now();
    process_sending_sharers_at(connection, attempts, time)
}

} // verus!
