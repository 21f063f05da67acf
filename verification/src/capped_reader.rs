//! A count of the bytes taken from a stream for the message at hand, with a
//! cap on it.

use crate::errors::{Error, ErrorKind, IoKind, Result};
use vstd::prelude::*;

verus! {

/// Something that counts what it reads and can start counting anew.
pub trait CappedRead {
    /// How many bytes the message at hand has taken.
    spec fn taken(&self) -> nat;

    /// Starts counting anew: the next message gets the whole cap.
    fn clear(&mut self)
        ensures
            final(self).taken() == 0,
    ;
}

/// The cap's book: how many bytes one message may take, and how many the
/// message at hand has taken.
pub struct CappedReader {
    capacity: usize,
    offset: usize,
}

/// The smaller of two counts.
pub open spec fn smaller(left: int, right: int) -> int {
    if left <= right {
        left
    } else {
        right
    }
}

impl CappedReader {
    /// How many bytes one message may take.
    pub closed spec fn capacity(&self) -> usize {
        self.capacity
    }

    /// How many bytes the message at hand has taken.
    pub closed spec fn offset(&self) -> usize {
        self.offset
    }

    /// Never more is taken than the cap allows.
    #[verifier::type_invariant]
    pub closed spec fn wf(&self) -> bool {
        self.offset <= self.capacity
    }

    /// A book for a cap of `capacity` bytes, with nothing taken.
    pub fn new(capacity: usize) -> (reader: CappedReader)
        ensures
            reader.capacity() == capacity,
            reader.offset() == 0,
    {
        CappedReader { capacity, offset: 0 }
    }

    /// The cap.
    pub fn limit(&self) -> (capacity: usize)
        ensures
            capacity == self.capacity(),
    {
        self.capacity
    }

    /// How many bytes the message at hand may still take.
    pub fn space_left(&self) -> (space: usize)
        ensures
            space == self.capacity() - self.offset(),
            self.offset() <= self.capacity(),
    {
        proof {
            use_type_invariant(self);
        }
        self.capacity - self.offset
    }

    /// How many bytes a read that wants `wanted` bytes may take: as many as
    /// the cap leaves. A read that may take none fails with `InvalidData`:
    /// the message is too long.
    pub fn allowance(&self, wanted: usize) -> (allowed: Result<usize>)
        ensures
            self.offset() <= self.capacity(),
            match allowed {
                Ok(count) => {
                    &&& count > 0
                    &&& count == smaller(wanted as int, self.capacity() - self.offset())
                },
                Err(error) => {
                    &&& error.kind == (ErrorKind::Io { source: IoKind::InvalidData })
                    &&& (wanted == 0 || self.offset() == self.capacity())
                },
            },
    {
        let space = self.space_left();
        let allowed = if wanted <= space {
            wanted
        } else {
            space
        };
        if allowed > 0 {
            Ok(allowed)
        } else {
            Err(Error::io(IoKind::InvalidData))
        }
    }

    /// Counts `count` bytes as taken.
    pub fn advance(&mut self, count: usize)
        requires
            count <= old(self).capacity() - old(self).offset(),
        ensures
            final(self).capacity() == old(self).capacity(),
            final(self).offset() == old(self).offset() + count,
    {
        proof {
            use_type_invariant(&*self);
        }
        self.offset = self.offset + count;
    }

    /// Takes bytes from the front of `source` for a read that wants `wanted`
    /// bytes, and says how many it took: as many as are wanted, are there,
    /// and the cap leaves. Fails with `InvalidData` where the cap leaves
    /// none, or none is wanted.
    pub fn read(&mut self, source: &[u8], wanted: usize) -> (read: Result<usize>)
        ensures
            final(self).capacity() == old(self).capacity(),
            match read {
                Ok(count) => {
                    &&& final(self).offset() == old(self).offset() + count
                    &&& count == smaller(
                        source@.len() as int,
                        smaller(wanted as int, old(self).capacity() - old(self).offset()),
                    )
                    &&& wanted > 0
                    &&& old(self).offset() < old(self).capacity()
                },
                Err(error) => {
                    &&& error.kind == (ErrorKind::Io { source: IoKind::InvalidData })
                    &&& final(self).offset() == old(self).offset()
                    &&& (wanted == 0 || old(self).offset() == old(self).capacity())
                },
            },
    {
        match self.allowance(wanted) {
            Err(error) => Err(error),
            Ok(allowed) => {
                let count = if source.len() < allowed {
                    source.len()
                } else {
                    allowed
                };
                self.advance(count);
                Ok(count)
            },
        }
    }
}

impl CappedRead for CappedReader {
    open spec fn taken(&self) -> nat {
        self.offset() as nat
    }

    fn clear(&mut self)
        ensures
            final(self).capacity() == old(self).capacity(),
    {
        self.offset = 0;
    }
}

} // verus!
