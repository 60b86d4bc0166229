//! The configuration that the engine reads: who it is, which lists it
//! serves, where it relays what is for nobody here.
use vstd::prelude::*;
use vstd::string::*;
use crate::text::{clone_texts, same_text, texts};

verus! {

/// Where the configuration is read from when nothing else is said.
pub const DEFAULT_CONFIG: &'static str = "/etc/mailing-list/daemon.toml";

/// Where the members of a list are read from when nothing else is said.
pub const DEFAULT_MEMBERS: &'static str = "/etc/mailing-list/members";

/// Relaying of mail that is for no list of this server.
#[derive(Debug, Clone, PartialEq, Eq)]
pub struct ForwardingOptions {
    pub enable: bool,
    /// The server that takes all relayed mail; without one, each message
    /// goes to the domain of its first recipient.
    pub server: Option<String>,
    /// The name that the relay's certificate must bear.
    pub server_tls: String,
    pub port: Option<u16>,
}

/// A list whose members stand in the configuration.
#[derive(Debug, Clone, PartialEq, Eq)]
pub struct LocalList {
    pub members: Vec<String>,
}

/// A list whose members are fetched from elsewhere for each message.
#[derive(Debug, Clone, PartialEq, Eq)]
pub struct RemoteList {
    pub location: String,
}

/// A distribution list.
#[derive(Debug, Clone, PartialEq, Eq)]
pub enum List {
    Local(LocalList),
    Remote(RemoteList),
}

/// A list under its address.
#[derive(Debug, Clone, PartialEq, Eq)]
pub struct ListEntry {
    pub address: String,
    pub list: List,
}

/// The configuration of a server.
#[derive(Debug, Clone, PartialEq, Eq)]
pub struct ServerConfig {
    pub port: Option<u16>,
    pub ip: Option<String>,
    /// The lists, each under its address; `unique` says that no address
    /// stands twice.
    pub lists: Vec<ListEntry>,
    pub forwarding: Option<ForwardingOptions>,
    pub plugins: Vec<String>,
    pub hostname: String,
}

/// A `List` as contracts speak of it.
pub enum Roll {
    Local { members: Seq<Seq<char>> },
    Remote { location: Seq<char> },
}

/// A `ForwardingOptions` as contracts speak of it.
pub struct Relay {
    pub enable: bool,
    pub server: Option<Seq<char>>,
    pub server_tls: Seq<char>,
    pub port: Option<u16>,
}

/// Of a `ServerConfig`, what the engine decides by.
pub struct Policy {
    pub lists: Seq<(Seq<char>, Roll)>,
    pub forwarding: Option<Relay>,
    pub hostname: Seq<char>,
}

impl View for List {
    type V = Roll;

    open spec fn view(&self) -> Roll {
        match self {
            List::Local(l) => Roll::Local { members: texts(l.members@) },
            List::Remote(r) => Roll::Remote { location: r.location@ },
        }
    }
}

impl View for ForwardingOptions {
    type V = Relay;

    open spec fn view(&self) -> Relay {
        Relay {
            enable: self.enable,
            server: match self.server {
                Some(s) => Some(s@),
                None => None,
            },
            server_tls: self.server_tls@,
            port: self.port,
        }
    }
}

impl View for ServerConfig {
    type V = Policy;

    open spec fn view(&self) -> Policy {
        Policy {
            lists: Seq::new(
                self.lists@.len(),
                |i: int| (self.lists@[i].address@, self.lists@[i].list@),
            ),
            forwarding: match self.forwarding {
                Some(f) => Some(f@),
                None => None,
            },
            hostname: self.hostname@,
        }
    }
}

/// An address with angle brackets put around it.
pub open spec fn bracketed(address: Seq<char>) -> Seq<char> {
    seq!['<'] + address + seq!['>']
}

/// The index of the first list under `address`; the number of lists where
/// there is none.
pub open spec fn position(lists: Seq<(Seq<char>, Roll)>, address: Seq<char>) -> int
    decreases lists.len(),
{
    if lists.len() == 0 {
        0
    } else if lists[0].0 == address {
        0
    } else {
        1 + position(lists.drop_first(), address)
    }
}

/// The list under `address`, where there is one.
pub open spec fn lookup(lists: Seq<(Seq<char>, Roll)>, address: Seq<char>) -> Option<Roll> {
    let at = position(lists, address);
    if at < lists.len() {
        Some(lists[at].1)
    } else {
        None
    }
}

/// No address stands twice.
pub open spec fn unique(lists: Seq<(Seq<char>, Roll)>) -> bool {
    forall|i: int, j: int|
        0 <= i < j < lists.len() ==> (#[trigger] lists[i]).0 != (#[trigger] lists[j]).0
}

pub proof fn lemma_position(lists: Seq<(Seq<char>, Roll)>, address: Seq<char>, at: int)
    requires
        0 <= at <= lists.len(),
        forall|i: int| 0 <= i < at ==> (#[trigger] lists[i]).0 != address,
        at < lists.len() ==> lists[at].0 == address,
    ensures
        position(lists, address) == at,
    decreases at,
{
    if at > 0 {
        let rest = lists.drop_first();
        lemma_position(rest, address, at - 1);
    }
}

pub proof fn lemma_position_bounds(lists: Seq<(Seq<char>, Roll)>, address: Seq<char>)
    ensures
        0 <= position(lists, address) <= lists.len(),
        forall|i: int| 0 <= i < position(lists, address) ==> (#[trigger] lists[i]).0 != address,
        position(lists, address) < lists.len() ==> lists[position(lists, address)].0 == address,
    decreases lists.len(),
{
    if lists.len() > 0 && lists[0].0 != address {
        let rest = lists.drop_first();
        lemma_position_bounds(rest, address);
        assert forall|i: int| 0 <= i < position(lists, address) implies (#[trigger] lists[i]).0
            != address by {
            if i > 0 {
                assert(lists[i] == rest[i - 1]);
            }
        }
    }
}

impl List {
    /// The members that the list delivers to. A local list holds them. Of a
    /// remote one, `fetched` is what came of reading its location: the
    /// addresses that stand there, each of which is put between angle
    /// brackets, or what the system said when the reading failed.
    pub fn get_members(&self, fetched: &Result<Vec<String>, String>) -> (r: Result<
        Vec<String>,
        crate::mail::Error,
    >)
        ensures
            match self@ {
                Roll::Local { members } => r matches Ok(found) && texts(found@) == members,
                Roll::Remote { .. } => match fetched {
                    Ok(read) => r matches Ok(found) && texts(found@) == Seq::new(
                        read@.len(),
                        |i: int| bracketed(read@[i]@),
                    ),
                    Err(said) => r matches Err(crate::mail::Error::IoError(text)) && text@
                        == said@,
                },
            },
    {
        match self {
            List::Local(list) => Ok(clone_texts(&list.members)),
            List::Remote(_) => match fetched {
                Err(said) => Err(crate::mail::Error::IoError(said.clone())),
                Ok(read) => {
                    let mut members: Vec<String> = Vec::new();
                    let mut i: usize = 0;
                    while i < read.len()
                        invariant
                            i <= read.len(),
                            members@.len() == i,
                            forall|j: int|
                                0 <= j < i ==> (#[trigger] members@[j])@ == bracketed(read@[j]@),
                        decreases read.len() - i,
                    {
                        let mut address = String::from_str("<");
                        address.append(read[i].as_str());
                        address.append(">");
                        proof {
                            reveal_strlit("<");
                            reveal_strlit(">");
                        }
                        members.push(address);
                        i = i + 1;
                    }
                    Ok(members)
                },
            },
        }
    }
}

impl ServerConfig {
    /// A configuration without lists, relay or plugins.
    pub fn new(hostname: String) -> (config: ServerConfig)
        ensures
            config@.hostname == hostname@,
            config@.lists.len() == 0,
            config@.forwarding is None,
            unique(config@.lists),
            config.port is None,
            config.ip is None,
            config.plugins@.len() == 0,
    {
        ServerConfig {
            port: None,
            ip: None,
            lists: Vec::new(),
            forwarding: None,
            plugins: Vec::new(),
            hostname,
        }
    }

    /// Where the list under `address` stands among the lists.
    pub fn find(&self, address: &str) -> (at: Option<usize>)
        ensures
            match at {
                Some(i) => i == position(self@.lists, address@) && i < self.lists@.len(),
                None => position(self@.lists, address@) == self.lists@.len(),
            },
    {
        let mut i: usize = 0;
        while i < self.lists.len()
            invariant
                i <= self.lists.len(),
                forall|j: int| 0 <= j < i ==> (#[trigger] self@.lists[j]).0 != address@,
            decreases self.lists.len() - i,
        {
            if same_text(self.lists[i].address.as_str(), address) {
                proof {
                    lemma_position(self@.lists, address@, i as int);
                }
                return Some(i);
            }
            i = i + 1;
        }
        proof {
            lemma_position(self@.lists, address@, i as int);
        }
        None
    }

    /// Puts `list` under `address`, in the place of the list that stood
    /// there or, where none did, behind the others.
    pub fn insert(&mut self, address: String, list: List)
        ensures
            unique(old(self)@.lists) ==> unique(final(self)@.lists),
            lookup(final(self)@.lists, address@) == Some(list@),
            final(self)@.hostname == old(self)@.hostname,
            final(self)@.forwarding == old(self)@.forwarding,
            final(self).port == old(self).port,
            final(self).ip == old(self).ip,
            final(self).plugins == old(self).plugins,
            ({
                let at = position(old(self)@.lists, address@);
                if at < old(self)@.lists.len() {
                    final(self)@.lists == old(self)@.lists.update(at, (address@, list@))
                } else {
                    final(self)@.lists == old(self)@.lists.push((address@, list@))
                }
            }),
    {
        let ghost before = self@.lists;
        let ghost entry = (address@, list@);
        proof {
            lemma_position_bounds(before, entry.0);
        }
        match self.find(address.as_str()) {
            Some(i) => {
                self.lists.set(i, ListEntry { address, list });
                proof {
                    assert(self@.lists =~= before.update(i as int, entry));
                    lemma_position(self@.lists, entry.0, i as int);
                }
            },
            None => {
                self.lists.push(ListEntry { address, list });
                proof {
                    assert(self@.lists =~= before.push(entry));
                    lemma_position(self@.lists, entry.0, before.len() as int);
                }
            },
        }
    }
}

} // verus!
