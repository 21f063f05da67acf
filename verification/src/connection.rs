//! What one connection keeps between messages: the id counter and the
//! transfers in either direction.

pub mod helpers;
pub mod messages;
pub mod sharers;

use crate::connection::sharers::{at_most, FileSharer};
use crate::shared_map::{lemma_insert_lookup, lemma_remove_lookup, SharedMap};
use crate::text::{decimal, decimal_digits};
use vstd::prelude::*;

verus! {

/// The key under which a transfer with the given id is kept: the id spelled
/// in decimal.
pub open spec fn id_key(id: usize) -> Seq<char> {
    decimal_digits(id as nat)
}

/// What the caller is to do with a file before a message is handled.
#[derive(Debug)]
pub enum FileRequest {
    /// Nothing.
    Nothing,
    /// Create the file at `path` and hand it over, unless a file is there
    /// already.
    Create { path: String },
    /// Open the file at `path` and hand it over with its length, if there
    /// is such a file.
    Open { path: String },
    /// Write the first `count` bytes of the chunk at hand to the file of the
    /// transfer that is kept under `id`.
    Store { id: usize, count: usize },
}

/// A request with its path as a sequence of characters.
pub enum FileRequestView {
    Nothing,
    Create { path: Seq<char> },
    Open { path: Seq<char> },
    Store { id: usize, count: usize },
}

impl View for FileRequest {
    type V = FileRequestView;

    open spec fn view(&self) -> FileRequestView {
        match self {
            FileRequest::Nothing => FileRequestView::Nothing,
            FileRequest::Create { path } => FileRequestView::Create { path: path@ },
            FileRequest::Open { path } => FileRequestView::Open { path: path@ },
            FileRequest::Store { id, count } => FileRequestView::Store { id: *id, count: *count },
        }
    }
}

/// A file that the caller has created or opened for a message, with its
/// length.
pub struct Opened<H> {
    pub file: H,
    pub size: usize,
}

/// What one connection keeps between messages. `H` is the open file
/// behind a transfer.
pub struct Context<H> {
    /// The transfers that wait for an answer or take chunks in, by key: the
    /// file's name until the transfer is promoted, then its id.
    pub reading_sharers: SharedMap<FileSharer<H>>,
    /// The transfers that are being sent, in the order in which they were
    /// agreed.
    pub sending_sharers: Vec<FileSharer<H>>,
    /// The id that the next transfer started on this side gets.
    pub nexd_id: usize,
}

impl<H> Context<H> {
    /// No key stands twice, and no transfer holds more than its size.
    pub open spec fn wf(&self) -> bool {
        &&& self.reading_sharers.wf()
        &&& forall|i: int|
            0 <= i < self.reading_sharers.values().len()
                ==> #[trigger] self.reading_sharers.values()[i].wf()
        &&& forall|i: int|
            0 <= i < self.sending_sharers@.len() ==> #[trigger] self.sending_sharers@[i].wf()
    }

    /// The transfer kept under `key`, if there is one.
    pub open spec fn reading(&self, key: Seq<char>) -> Option<FileSharer<H>> {
        self.reading_sharers.lookup(key)
    }

    /// Every transfer that is kept holds no more than its size.
    pub proof fn lemma_reading_wf(&self, key: Seq<char>)
        requires
            self.wf(),
            self.reading(key) is Some,
        ensures
            self.reading(key)->0.wf(),
    {
        self.reading_sharers.lemma_found(key);
        self.reading_sharers.lemma_lengths();
    }

    /// A session without transfers, whose first id is 0.
    pub fn new() -> (context: Context<H>)
        ensures
            context.wf(),
            context.nexd_id == 0,
            context.sending_sharers@.len() == 0,
            forall|key: Seq<char>| context.reading(key) is None,
    {
        Context { reading_sharers: SharedMap::new(), sending_sharers: Vec::new(), nexd_id: 0 }
    }

    /// Hands out the next id and moves the counter on. The counter must
    /// not have reached the largest number that it can hold.
    pub fn free_id(&mut self) -> (id: usize)
        requires
            old(self).nexd_id < usize::MAX,
        ensures
            id == old(self).nexd_id,
            *final(self) == (Context { nexd_id: (id + 1) as usize, ..*old(self) }),
    {
        let id = self.nexd_id;
        self.nexd_id = self.nexd_id + 1;
        id
    }

    /// Keeps a fresh transfer under the file's name: nothing written, size
    /// and id not known yet. A transfer that stood under that key is dropped.
    pub fn prepare_sharer(&mut self, path: &str, file: H, name: &str, now: i64)
        requires
            old(self).wf(),
        ensures
            final(self).wf(),
            final(self).reading(name@) matches Some(sharer) && {
                &&& sharer.name@ == name@
                &&& sharer.path@ == path@
                &&& sharer.file == file
                &&& sharer.size == 0
                &&& sharer.id == 0
                &&& sharer.written == 0
                &&& sharer.old_time_point == now
            },
            forall|key: Seq<char>| key != name@ ==> final(self).reading(key) == old(self).reading(key),
            final(self).sending_sharers == old(self).sending_sharers,
            final(self).nexd_id == old(self).nexd_id,
    {
        let sharer = FileSharer::new(name, path, file, 0, 0, now);
        let ghost before = self.reading_sharers;
        self.reading_sharers.insert(name.to_owned(), sharer);
        proof {
            lemma_insert_lookup(before, self.reading_sharers, name@, sharer, name@);
            assert forall|key: Seq<char>| key != name@ implies self.reading(key) == old(
                self,
            ).reading(key) by {
                lemma_insert_lookup(before, self.reading_sharers, name@, sharer, key);
            }
        }
    }

    /// Moves the transfer kept under `name` to the key of `id`, with its
    /// size and id set. Nothing happens where no transfer stands under
    /// `name`. A count of bytes above the new size is cut down to it.
    pub fn promote_sharer(&mut self, name: &str, size: usize, id: usize)
        requires
            old(self).wf(),
        ensures
            final(self).wf(),
            final(self).sending_sharers == old(self).sending_sharers,
            final(self).nexd_id == old(self).nexd_id,
            match old(self).reading(name@) {
                None => forall|key: Seq<char>| final(self).reading(key) == old(self).reading(key),
                Some(sharer) => {
                    &&& final(self).reading(id_key(id)) == Some(
                        FileSharer {
                            size,
                            id,
                            written: at_most(sharer.written as nat, size as nat) as usize,
                            ..sharer
                        },
                    )
                    &&& name@ != id_key(id) ==> final(self).reading(name@) is None
                    &&& forall|key: Seq<char>|
                        key != name@ && key != id_key(id) ==> final(self).reading(key) == old(
                            self,
                        ).reading(key)
                },
            },
    {
        let ghost before = self.reading_sharers;
        match self.reading_sharers.remove(name) {
            None => {
                proof {
                    assert forall|key: Seq<char>| self.reading(key) == old(self).reading(key) by {
                        lemma_remove_lookup(before, self.reading_sharers, name@, key);
                    }
                }
            },
            Some(found) => {
                let mut sharer = found;
                proof {
                    old(self).lemma_reading_wf(name@);
                }
                let ghost between = self.reading_sharers;
                sharer.size = size;
                sharer.id = id;
                if sharer.written > size {
                    sharer.written = size;
                }
                let key = decimal(id);
                self.reading_sharers.insert(key, sharer);
                proof {
                    lemma_remove_lookup(before, between, name@, name@);
                    lemma_insert_lookup(between, self.reading_sharers, id_key(id), sharer, name@);
                    assert forall|other: Seq<char>|
                        other != name@ && other != id_key(id) implies self.reading(other) == old(
                        self,
                    ).reading(other) by {
                        lemma_remove_lookup(before, between, name@, other);
                        lemma_insert_lookup(
                            between,
                            self.reading_sharers,
                            id_key(id),
                            sharer,
                            other,
                        );
                    }
                }
            },
        }
    }

    /// Keeps a fresh transfer with its size and id known, under the key of
    /// its id: what preparing it under the file's name and promoting it at
    /// once comes to.
    pub fn open_sharer(
        &mut self,
        path: &str,
        file: H,
        name: &str,
        size: usize,
        id: usize,
        now: i64,
    )
        requires
            old(self).wf(),
        ensures
            final(self).wf(),
            final(self).sending_sharers == old(self).sending_sharers,
            final(self).nexd_id == old(self).nexd_id,
            final(self).reading(id_key(id)) matches Some(sharer) && {
                &&& sharer.name@ == name@
                &&& sharer.path@ == path@
                &&& sharer.file == file
                &&& sharer.size == size
                &&& sharer.id == id
                &&& sharer.written == 0
                &&& sharer.old_time_point == now
            },
            name@ != id_key(id) ==> final(self).reading(name@) is None,
            forall|key: Seq<char>|
                key != name@ && key != id_key(id) ==> final(self).reading(key) == old(
                    self,
                ).reading(key),
    {
        self.prepare_sharer(path, file, name, now);
        self.promote_sharer(name, size, id);
    }

    /// The transfer that is kept under `id`, if there is one.
    pub fn sharer(&self, id: usize) -> (sharer: Option<&FileSharer<H>>)
        requires
            self.wf(),
        ensures
            match sharer {
                Some(it) => self.reading(id_key(id)) == Some(*it),
                None => self.reading(id_key(id)) is None,
            },
    {
        let key = decimal(id);
        self.reading_sharers.get(key.as_str())
    }

    /// What is to be done with the file of transfer `id` when a chunk of
    /// `offered` bytes comes for it: its leading bytes are to be written, as
    /// many as the transfer has room for. Nothing is to be done where no
    /// such transfer is kept.
    pub open spec fn storing(&self, offered: nat, id: usize) -> FileRequestView {
        match self.reading(id_key(id)) {
            Some(sharer) => FileRequestView::Store {
                id,
                count: at_most(offered, (sharer.size - sharer.written) as nat) as usize,
            },
            None => FileRequestView::Nothing,
        }
    }

    /// What is to be done with a file when a chunk of `offered` bytes comes
    /// for transfer `id`.
    pub fn store_request(&self, offered: usize, id: usize) -> (request: FileRequest)
        requires
            self.wf(),
        ensures
            request@ == self.storing(offered as nat, id),
    {
        match self.sharer(id) {
            Some(sharer) => {
                proof {
                    self.lemma_reading_wf(id_key(id));
                }
                FileRequest::Store { id, count: sharer.room_for(offered) }
            },
            None => FileRequest::Nothing,
        }
    }

    /// Counts a chunk for transfer `id`: of its bytes, as many as the
    /// transfer has room for. Says whether the transfer is complete with
    /// them. Nothing happens, and the answer is no, where no such transfer
    /// is kept.
    pub fn accept_chunk(&mut self, data: &[u8], id: usize) -> (done: bool)
        requires
            old(self).wf(),
        ensures
            final(self).wf(),
            final(self).sending_sharers == old(self).sending_sharers,
            final(self).nexd_id == old(self).nexd_id,
            forall|key: Seq<char>|
                key != id_key(id) ==> final(self).reading(key) == old(self).reading(key),
            match old(self).reading(id_key(id)) {
                None => !done && final(self).reading(id_key(id)) is None,
                Some(sharer) => {
                    let written = sharer.written + at_most(
                        data@.len(),
                        (sharer.size - sharer.written) as nat,
                    );
                    &&& final(self).reading(id_key(id)) == Some(
                        sharer.with_written(written as usize),
                    )
                    &&& done == (written >= sharer.size)
                },
            },
    {
        let key = decimal(id);
        let ghost before = self.reading_sharers;
        match self.reading_sharers.find(key.as_str()) {
            None => false,
            Some(at) => {
                proof {
                    before.lemma_found(id_key(id));
                    before.lemma_lengths();
                    old(self).lemma_reading_wf(id_key(id));
                }
                let (key, found) = self.reading_sharers.remove_at(at);
                assert(Some(found) == old(self).reading(id_key(id)));
                let mut sharer = found;
                let ghost between = self.reading_sharers;
                let done = sharer.accept(data.len());
                proof {
                    assert(!between.keys().contains(key@)) by {
                        if between.keys().contains(key@) {
                            let j = between.keys().index_of(key@);
                            let origin = if j < at { j } else { j + 1 };
                            assert(before.keys()[origin] == key@);
                        }
                    }
                }
                self.reading_sharers.insert_at(at, key, sharer);
                proof {
                    assert(self.reading_sharers.keys() =~= before.keys());
                    assert(self.reading_sharers.values() =~= before.values().update(
                        at as int,
                        sharer,
                    ));
                    lemma_insert_lookup(before, self.reading_sharers, id_key(id), sharer, id_key(id));
                    assert forall|other: Seq<char>| other != id_key(id) implies self.reading(other)
                        == old(self).reading(other) by {
                        lemma_insert_lookup(
                            before,
                            self.reading_sharers,
                            id_key(id),
                            sharer,
                            other,
                        );
                    }
                }
                done
            },
        }
    }

    /// Takes out the transfer kept under the file's name, if there is one.
    pub fn remove_unpromoted_sharer(&mut self, name: &str) -> (taken: Option<FileSharer<H>>)
        requires
            old(self).wf(),
        ensures
            final(self).wf(),
            final(self).sending_sharers == old(self).sending_sharers,
            final(self).nexd_id == old(self).nexd_id,
            taken == old(self).reading(name@),
            taken is Some ==> taken->0.wf(),
            final(self).reading(name@) is None,
            forall|key: Seq<char>| key != name@ ==> final(self).reading(key) == old(self).reading(key),
    {
        let ghost before = self.reading_sharers;
        let taken = self.reading_sharers.remove(name);
        proof {
            lemma_remove_lookup(before, self.reading_sharers, name@, name@);
            assert forall|key: Seq<char>| key != name@ implies self.reading(key) == old(
                self,
            ).reading(key) by {
                lemma_remove_lookup(before, self.reading_sharers, name@, key);
            }
            if taken is Some {
                old(self).lemma_reading_wf(name@);
            }
        }
        taken
    }

    /// Takes out the transfer kept under `id`, if there is one.
    pub fn remove_sharer(&mut self, id: usize) -> (taken: Option<FileSharer<H>>)
        requires
            old(self).wf(),
        ensures
            final(self).wf(),
            final(self).sending_sharers == old(self).sending_sharers,
            final(self).nexd_id == old(self).nexd_id,
            taken == old(self).reading(id_key(id)),
            taken is Some ==> taken->0.wf(),
            final(self).reading(id_key(id)) is None,
            forall|key: Seq<char>|
                key != id_key(id) ==> final(self).reading(key) == old(self).reading(key),
    {
        let key = decimal(id);
        self.remove_unpromoted_sharer(key.as_str())
    }

    /// Puts a transfer at the end of those that are being sent.
    pub fn enqueu_sending_sharer(&mut self, sharer: FileSharer<H>)
        requires
            old(self).wf(),
            sharer.wf(),
        ensures
            final(self).wf(),
            final(self).sending_sharers@ == old(self).sending_sharers@.push(sharer),
            final(self).reading_sharers == old(self).reading_sharers,
            final(self).nexd_id == old(self).nexd_id,
    {
        self.sending_sharers.push(sharer);
    }

    /// The transfers that are being sent, first agreed first.
    pub fn sending_sharers_queue(&self) -> (queue: &Vec<FileSharer<H>>)
        ensures
            queue == self.sending_sharers,
    {
        &self.sending_sharers
    }
}

/// The session after a fresh transfer with the given values has been kept
/// under the key of its id.
pub open spec fn transfer_opened<H>(
    before: Context<H>,
    after: Context<H>,
    path: Seq<char>,
    file: H,
    name: Seq<char>,
    size: usize,
    id: usize,
    now: i64,
) -> bool {
    &&& after.wf()
    &&& after.sending_sharers == before.sending_sharers
    &&& after.reading(id_key(id)) matches Some(sharer) && {
        &&& sharer.name@ == name
        &&& sharer.path@ == path
        &&& sharer.file == file
        &&& sharer.size == size
        &&& sharer.id == id
        &&& sharer.written == 0
        &&& sharer.old_time_point == now
    }
    &&& name != id_key(id) ==> after.reading(name) is None
    &&& forall|key: Seq<char>|
        key != name && key != id_key(id) ==> after.reading(key) == before.reading(key)
}

/// The session after the transfer kept under `id` has been moved to those
/// that are being sent; nothing changes where no such transfer is kept.
pub open spec fn sending_started<H>(before: Context<H>, after: Context<H>, id: usize) -> bool {
    &&& after.wf()
    &&& after.nexd_id == before.nexd_id
    &&& after.reading(id_key(id)) is None
    &&& forall|key: Seq<char>| key != id_key(id) ==> after.reading(key) == before.reading(key)
    &&& after.sending_sharers@ == match before.reading(id_key(id)) {
        Some(sharer) => before.sending_sharers@.push(sharer),
        None => before.sending_sharers@,
    }
}

/// The session after the transfer kept under `key` has been dropped.
pub open spec fn transfer_dropped<H>(before: Context<H>, after: Context<H>, key: Seq<char>)
    -> bool {
    &&& after.wf()
    &&& after.nexd_id == before.nexd_id
    &&& after.sending_sharers == before.sending_sharers
    &&& after.reading(key) is None
    &&& forall|other: Seq<char>| other != key ==> after.reading(other) == before.reading(other)
}

/// The session after the transfer kept under `name` has been promoted to
/// `id` with `size`; without such a transfer nothing changes.
pub open spec fn promoted<H>(
    before: Context<H>,
    after: Context<H>,
    name: Seq<char>,
    size: usize,
    id: usize,
) -> bool {
    &&& after.wf()
    &&& after.sending_sharers == before.sending_sharers
    &&& after.nexd_id == before.nexd_id
    &&& match before.reading(name) {
        None => forall|key: Seq<char>| after.reading(key) == before.reading(key),
        Some(sharer) => {
            &&& after.reading(id_key(id)) == Some(
                FileSharer {
                    size,
                    id,
                    written: at_most(sharer.written as nat, size as nat) as usize,
                    ..sharer
                },
            )
            &&& name != id_key(id) ==> after.reading(name) is None
            &&& forall|key: Seq<char>|
                key != name && key != id_key(id) ==> after.reading(key) == before.reading(key)
        },
    }
}

/// The transfer that a chunk for `id` completes, as it was before the
/// chunk, if it completes one.
pub open spec fn completed<H>(session: Context<H>, data: Seq<u8>, id: usize) -> Option<
    FileSharer<H>,
> {
    match session.reading(id_key(id)) {
        Some(sharer) => if sharer.written + at_most(
            data.len(),
            (sharer.size - sharer.written) as nat,
        ) == sharer.size {
            Some(sharer)
        } else {
            None
        },
        None => None,
    }
}

/// The session after a chunk for transfer `id` has been counted: a transfer
/// that is complete with it is taken out, one that is not holds the bytes,
/// and nothing else changes.
pub open spec fn chunk_counted<H>(before: Context<H>, after: Context<H>, data: Seq<u8>, id: usize)
    -> bool {
    &&& after.wf()
    &&& after.nexd_id == before.nexd_id
    &&& after.sending_sharers == before.sending_sharers
    &&& forall|key: Seq<char>| key != id_key(id) ==> after.reading(key) == before.reading(key)
    &&& match completed(before, data, id) {
        Some(_) => after.reading(id_key(id)) is None,
        None => match before.reading(id_key(id)) {
            None => after.reading(id_key(id)) is None,
            Some(sharer) => {
                let written = sharer.written + at_most(
                    data.len(),
                    (sharer.size - sharer.written) as nat,
                );
                written < sharer.size && after.reading(id_key(id)) == Some(
                    sharer.with_written(written as usize),
                )
            },
        },
    }
}

} // verus!
