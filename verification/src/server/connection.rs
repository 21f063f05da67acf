//! The chat directory of the server: who is connected, and under which
//! name each peer is known.

use crate::connection::messages::{ServerMessage, ServerMessageView};
use crate::shared_map::{lemma_insert_lookup, lemma_remove_lookup, SharedMap};
use crate::text::contains_char;
use vstd::prelude::*;
use vstd::string::*;

verus! {

/// From a peer's address to the name it has chosen.
pub type NamesMap = SharedMap<String>;

/// From a peer's address to the caller's handle of its session.
pub type Clients<K> = SharedMap<K>;

/// A message with the addresses of those who are to get it, in the order
/// in which it is sent to them.
#[derive(Debug)]
pub struct Outgoing {
    pub recipients: Vec<String>,
    pub message: ServerMessage,
}

impl Outgoing {
    /// The addresses of those who get the message.
    pub open spec fn to(&self) -> Seq<Seq<char>> {
        Seq::new(self.recipients@.len(), |i: int| self.recipients@[i]@)
    }

    /// Whether the message is `message` and goes to `recipients`.
    pub open spec fn is(&self, recipients: Seq<Seq<char>>, message: ServerMessageView) -> bool {
        self.to() == recipients && self.message@ == message
    }
}

/// What a wish for a name came to.
pub enum RenameResult {
    Success { old_name: String, new_name: String },
    Failure { reason: String },
}

/// The chat directory. `K` is the caller's handle of a session.
pub struct ServerContext<K> {
    pub names: NamesMap,
    pub clients: Clients<K>,
}

/// Why a name with a dot or a colon is refused.
pub open spec fn reason_forbidden() -> Seq<char> {
    "Your name can't contain '.'s or ':'s"@
}

/// Why a name that another peer has is refused.
pub open spec fn reason_taken() -> Seq<char> {
    "This name has already been taken, choose another one"@
}

/// The name under which the peer at `address` is known: the one it chose,
/// or else its address.
pub open spec fn name_of(names: NamesMap, address: Seq<char>) -> Seq<char> {
    match names.lookup(address) {
        Some(name) => name@,
        None => address,
    }
}

/// Whether a name may not be chosen because of a character in it.
pub open spec fn forbidden(name: Seq<char>) -> bool {
    name.contains('.') || name.contains(':')
}

/// Whether the peer at `address` holds `name`.
pub open spec fn holds(names: NamesMap, address: Seq<char>, name: Seq<char>) -> bool {
    match names.lookup(address) {
        Some(held) => held@ == name,
        None => false,
    }
}

/// Whether a peer other than the one at `address` holds `name`.
pub open spec fn taken(names: NamesMap, address: Seq<char>, name: Seq<char>) -> bool {
    exists|other: Seq<char>| other != address && #[trigger] holds(names, other, name)
}

/// No two peers hold the same name.
pub open spec fn distinct(names: NamesMap) -> bool {
    forall|one: Seq<char>, other: Seq<char>, name: Seq<char>|
        one != other && #[trigger] holds(names, one, name) ==> !#[trigger] holds(
            names,
            other,
            name,
        )
}

/// Whether a peer's wish for `name` is granted.
pub open spec fn accepted(names: NamesMap, address: Seq<char>, name: Seq<char>) -> bool {
    !forbidden(name) && !taken(names, address, name)
}

/// The names file that the server starts with: its own address holds the
/// name "Server", so that no peer can take it.
pub fn setup_names_mapping() -> (names: NamesMap)
    ensures
        names.wf(),
        names.lookup("127.0.0.1:6969"@) matches Some(name) && name@ == "Server"@,
        forall|other: Seq<char>| other != "127.0.0.1:6969"@ ==> names.lookup(other) is None,
        distinct(names),
{
    let mut names: NamesMap = SharedMap::new();
    let ghost empty = names;
    let name = "Server".to_owned();
    names.insert("127.0.0.1:6969".to_owned(), name);
    proof {
        lemma_insert_lookup(empty, names, "127.0.0.1:6969"@, name, "127.0.0.1:6969"@);
        assert forall|other: Seq<char>| other != "127.0.0.1:6969"@ implies names.lookup(other)
            is None by {
            lemma_insert_lookup(empty, names, "127.0.0.1:6969"@, name, other);
        }
    }
    names
}

/// `message` for everyone who is connected, in the order in which they
/// came.
pub fn broadcast<K>(clients: &Clients<K>, message: &ServerMessage) -> (outgoing: Outgoing)
    requires
        clients.wf(),
    ensures
        outgoing.is(clients.keys(), message@),
{
    let mut recipients: Vec<String> = Vec::new();
    let mut at: usize = 0;
    while at < clients.len()
        invariant
            at <= clients.keys().len(),
            recipients@.len() == at,
            forall|i: int| 0 <= i < at ==> recipients@[i]@ == clients.keys()[i],
        decreases clients.keys().len() - at,
    {
        recipients.push(clients.key_at(at).clone());
        at += 1;
    }
    let outgoing = Outgoing { recipients, message: message.copy() };
    assert(outgoing.to() =~= clients.keys());
    outgoing
}

/// `message` for the peer at `address` alone.
pub fn reply(address: &str, message: ServerMessage) -> (outgoing: Outgoing)
    ensures
        outgoing.is(seq![address@], message@),
        outgoing.message == message,
{
    let mut recipients: Vec<String> = Vec::new();
    recipients.push(address.to_owned());
    let outgoing = Outgoing { recipients, message };
    assert(outgoing.to() =~= seq![address@]);
    outgoing
}

impl<K> ServerContext<K> {
    /// No address stands twice, among the names or among the peers.
    pub open spec fn wf(&self) -> bool {
        self.names.wf() && self.clients.wf()
    }

    /// Whether the peer at `address` is connected.
    pub open spec fn connected(&self, address: Seq<char>) -> bool {
        self.clients.lookup(address) is Some
    }

    /// The directory with the given names and peers.
    pub fn new(names: NamesMap, clients: Clients<K>) -> (context: ServerContext<K>)
        ensures
            context.names == names,
            context.clients == clients,
    {
        ServerContext { names, clients }
    }

    /// The name under which the peer at `address` is known.
    pub fn name(&self, address: &str) -> (name: String)
        requires
            self.wf(),
        ensures
            name@ == name_of(self.names, address@),
    {
        match self.names.get(address) {
            Some(name) => name.clone(),
            None => address.to_owned(),
        }
    }

    /// Whether a peer other than the one at `address` holds `name`.
    pub fn name_taken(&self, address: &str, name: &str) -> (held: bool)
        requires
            self.wf(),
        ensures
            held == taken(self.names, address@, name@),
    {
        let wanted = name.to_owned();
        let own = address.to_owned();
        let mut at: usize = 0;
        while at < self.names.len()
            invariant
                self.wf(),
                wanted@ == name@,
                own@ == address@,
                at <= self.names.keys().len(),
                forall|i: int|
                    0 <= i < at ==> !(self.names.keys()[i] != address@
                        && self.names.values()[i]@ == name@),
            decreases self.names.keys().len() - at,
        {
            if *self.names.key_at(at) != own && *self.names.value_at(at) == wanted {
                proof {
                    self.names.lemma_position(at as int);
                    assert(holds(self.names, self.names.keys()[at as int], name@));
                }
                return true;
            }
            at += 1;
        }
        proof {
            if taken(self.names, address@, name@) {
                let other = choose|other: Seq<char>|
                    other != address@ && #[trigger] holds(self.names, other, name@);
                self.names.lemma_found(other);
                self.names.lemma_lengths();
            }
        }
        false
    }

    /// Gives the peer at `address` the name it wishes, unless the name holds
    /// a dot or a colon, or another peer holds it already.
    pub fn rename(&mut self, address: &str, new_name: &str) -> (result: RenameResult)
        requires
            old(self).wf(),
        ensures
            final(self).wf(),
            final(self).clients == old(self).clients,
            if forbidden(new_name@) {
                &&& result matches RenameResult::Failure { reason } && reason@
                    == reason_forbidden()
                &&& final(self).names == old(self).names
            } else if taken(old(self).names, address@, new_name@) {
                &&& result matches RenameResult::Failure { reason } && reason@ == reason_taken()
                &&& final(self).names == old(self).names
            } else {
                &&& result matches RenameResult::Success { old_name, new_name: chosen }
                    && old_name@ == name_of(old(self).names, address@) && chosen@ == new_name@
                &&& name_of(final(self).names, address@) == new_name@
                &&& final(self).names.lookup(address@) is Some
                &&& forall|other: Seq<char>|
                    other != address@ ==> final(self).names.lookup(other) == old(
                        self,
                    ).names.lookup(other)
            },
    {
        if contains_char(new_name, '.') || contains_char(new_name, ':') {
            return RenameResult::Failure {
                reason: "Your name can't contain '.'s or ':'s".to_owned(),
            };
        }
        if self.name_taken(address, new_name) {
            return RenameResult::Failure {
                reason: "This name has already been taken, choose another one".to_owned(),
            };
        }
        let old_name = self.name(address);
        let ghost before = self.names;
        let chosen = new_name.to_owned();
        self.names.insert(address.to_owned(), chosen);
        proof {
            lemma_insert_lookup(before, self.names, address@, chosen, address@);
            assert forall|other: Seq<char>| other != address@ implies self.names.lookup(other)
                == old(self).names.lookup(other) by {
                lemma_insert_lookup(before, self.names, address@, chosen, other);
            }
        }
        RenameResult::Success { old_name, new_name: new_name.to_owned() }
    }

    /// Takes in a peer that has connected, with the caller's handle of its
    /// session. A peer that was known under the address gives way.
    pub fn add_to_clients(&mut self, address: &str, session: K)
        requires
            old(self).wf(),
        ensures
            final(self).wf(),
            final(self).names == old(self).names,
            final(self).connected(address@),
            final(self).clients.lookup(address@) == Some(session),
            forall|other: Seq<char>|
                other != address@ ==> final(self).clients.lookup(other) == old(
                    self,
                ).clients.lookup(other),
            final(self).clients.keys() == if old(self).connected(address@) {
                old(self).clients.keys()
            } else {
                old(self).clients.keys().push(address@)
            },
    {
        let ghost before = self.clients;
        self.clients.insert(address.to_owned(), session);
        proof {
            lemma_insert_lookup(before, self.clients, address@, session, address@);
            assert forall|other: Seq<char>| other != address@ implies self.clients.lookup(other)
                == old(self).clients.lookup(other) by {
                lemma_insert_lookup(before, self.clients, address@, session, other);
            }
        }
    }

    /// Forgets the peer at `address`: it is no longer connected and holds
    /// no name. Hands back the caller's handle of its session, if it was
    /// connected.
    pub fn remove_from_clients(&mut self, address: &str) -> (session: Option<K>)
        requires
            old(self).wf(),
        ensures
            final(self).wf(),
            session == old(self).clients.lookup(address@),
            !final(self).connected(address@),
            final(self).names.lookup(address@) is None,
            !final(self).clients.keys().contains(address@),
            forall|other: Seq<char>|
                other != address@ ==> final(self).clients.lookup(other) == old(
                    self,
                ).clients.lookup(other) && final(self).names.lookup(other) == old(
                    self,
                ).names.lookup(other),
            final(self).clients.keys() == match old(self).clients.position(address@) {
                Some(at) => old(self).clients.keys().remove(at),
                None => old(self).clients.keys(),
            },
    {
        let ghost clients = self.clients;
        let ghost names = self.names;
        let session = self.clients.remove(address);
        self.names.remove(address);
        proof {
            lemma_remove_lookup(clients, self.clients, address@, address@);
            lemma_remove_lookup(names, self.names, address@, address@);
            assert forall|other: Seq<char>| other != address@ implies self.clients.lookup(other)
                == old(self).clients.lookup(other) && self.names.lookup(other) == old(
                self,
            ).names.lookup(other) by {
                lemma_remove_lookup(clients, self.clients, address@, other);
                lemma_remove_lookup(names, self.names, address@, other);
            }
        }
        session
    }

    /// `message` for everyone who is connected.
    pub fn broadcast(&self, message: &ServerMessage) -> (outgoing: Outgoing)
        requires
            self.wf(),
        ensures
            outgoing.is(self.clients.keys(), message@),
    {
        broadcast(&self.clients, message)
    }
}

} // verus!
