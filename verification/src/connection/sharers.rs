//! The record that follows one file transfer on one session.

use vstd::prelude::*;
use vstd::string::*;

verus! {

/// One transfer in flight. `H` is the open file behind it: the library
/// carries it along and never looks inside.
pub struct FileSharer<H> {
    /// The name under which the peers speak of the file.
    pub name: String,
    /// Where the file lies on this side.
    pub path: String,
    pub file: H,
    /// How many bytes the transfer has in all.
    pub size: usize,
    /// The transfer's id on its connection; 0 until it is known.
    pub id: usize,
    /// How many bytes have been stored or sent so far.
    pub written: usize,
    /// When progress was last reported, in milliseconds since the epoch.
    pub old_time_point: i64,
}

/// The smaller of two counts.
pub open spec fn at_most(count: nat, limit: nat) -> nat {
    if count <= limit {
        count
    } else {
        limit
    }
}

/// The sum of the lengths.
pub open spec fn total(lengths: Seq<nat>) -> nat
    decreases lengths.len(),
{
    if lengths.len() == 0 {
        0
    } else {
        lengths[0] + total(lengths.drop_first())
    }
}

/// How many bytes a transfer of `size` bytes holds once chunks of the given
/// lengths have been taken in turn, starting from `written`.
pub open spec fn written_after(written: nat, size: nat, lengths: Seq<nat>) -> nat
    decreases lengths.len(),
{
    if lengths.len() == 0 {
        written
    } else {
        written_after(
            written + at_most(lengths[0], (size - written) as nat),
            size,
            lengths.drop_first(),
        )
    }
}

/// Whatever the chunks, a transfer holds the bytes that came, cut off at its
/// size: what exceeds the size is dropped.
pub proof fn lemma_written_after(written: nat, size: nat, lengths: Seq<nat>)
    requires
        written <= size,
    ensures
        written_after(written, size, lengths) == at_most(written + total(lengths), size),
        written_after(written, size, lengths) <= size,
    decreases lengths.len(),
{
    if lengths.len() > 0 {
        let next = written + at_most(lengths[0], (size - written) as nat);
        lemma_written_after(next, size, lengths.drop_first());
    }
}

impl<H> FileSharer<H> {
    /// Never more is written than the transfer has.
    pub open spec fn wf(&self) -> bool {
        self.written <= self.size
    }

    /// The same transfer with another count of bytes done.
    pub open spec fn with_written(self, written: usize) -> FileSharer<H> {
        FileSharer { written, ..self }
    }

    /// A transfer of which nothing is written yet.
    pub fn new(name: &str, path: &str, file: H, size: usize, id: usize, now: i64) -> (sharer:
        FileSharer<H>)
        ensures
            sharer.wf(),
            sharer.name@ == name@,
            sharer.path@ == path@,
            sharer.file == file,
            sharer.size == size,
            sharer.id == id,
            sharer.written == 0,
            sharer.old_time_point == now,
    {
        FileSharer {
            name: name.to_owned(),
            path: path.to_owned(),
            file,
            size,
            id,
            written: 0,
            old_time_point: now,
        }
    }

    /// How many bytes are still to come.
    pub fn rest(&self) -> (rest: usize)
        requires
            self.wf(),
        ensures
            rest == self.size - self.written,
    {
        self.size - self.written
    }

    /// How much of the transfer is done, in hundredths.
    pub fn percentage(&self) -> (percent: u8)
        requires
            self.wf(),
            self.size > 0,
        ensures
            percent == self.written * 100 / (self.size as int),
            percent <= 100,
    {
        let done: u128 = self.written as u128 * 100;
        let size: u128 = self.size as u128;
        let percent: u128 = done / size;
        assert(percent <= 100) by (nonlinear_arith)
            requires
                percent == done / size,
                done <= size * 100,
                size > 0,
        ;
        percent as u8
    }

    /// How many of `offered` bytes the transfer still has room for.
    pub fn room_for(&self, offered: usize) -> (count: usize)
        requires
            self.wf(),
        ensures
            count == at_most(offered as nat, (self.size - self.written) as nat),
    {
        let rest = self.rest();
        if offered <= rest {
            offered
        } else {
            rest
        }
    }

    /// Counts the bytes of a chunk of `offered` bytes that the transfer has
    /// room for, and says whether the transfer is complete with them.
    pub fn accept(&mut self, offered: usize) -> (done: bool)
        requires
            old(self).wf(),
        ensures
            final(self).wf(),
            *final(self) == old(self).with_written(
                (old(self).written + at_most(
                    offered as nat,
                    (old(self).size - old(self).written) as nat,
                )) as usize,
            ),
            final(self).written == written_after(
                old(self).written as nat,
                old(self).size as nat,
                seq![offered as nat],
            ),
            done == (final(self).written >= final(self).size),
    {
        let count = self.room_for(offered);
        self.written = self.written + count;
        proof {
            let lengths = seq![offered as nat];
            assert(lengths.drop_first().len() == 0);
            reveal_with_fuel(written_after, 2);
        }
        self.written >= self.size
    }

    /// Whether a second or more has passed since progress was last reported.
    pub open spec fn report_due(&self, now: i64) -> bool {
        now - self.old_time_point >= 1000
    }

    /// Notes `now` as the time of the last report where one is due, and says
    /// whether it was.
    pub fn tick(&mut self, now: i64) -> (due: bool)
        ensures
            due == old(self).report_due(now),
            *final(self) == (FileSharer {
                old_time_point: if due {
                    now
                } else {
                    old(self).old_time_point
                },
                ..*old(self)
            }),
    {
        let passed: i128 = now as i128 - self.old_time_point as i128;
        if passed >= 1000 {
            self.old_time_point = now;
            true
        } else {
            false
        }
    }
}

} // verus!
