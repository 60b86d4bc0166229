//! A message once it is taken, and what is done with it: to whom it is
//! handed on.
use vstd::prelude::*;
use crate::config::{
    lookup, List, LocalList, Policy, Relay, RemoteList, Roll, ServerConfig,
};
use crate::smtp::{domain, domain_of};
use crate::text::{clone_texts, texts};

verus! {

/// A message: who sent it, to whom, and what it says. Addresses stand
/// without angle brackets.
#[derive(Debug, Clone, PartialEq, Eq)]
pub struct Mail {
    pub from: String,
    pub to: Vec<String>,
    pub payload: Vec<u8>,
}

/// A `Mail` as contracts speak of it.
pub struct Letter {
    pub from: Seq<char>,
    pub to: Seq<Seq<char>>,
    pub payload: Seq<u8>,
}

impl View for Mail {
    type V = Letter;

    open spec fn view(&self) -> Letter {
        Letter { from: self.from@, to: texts(self.to@), payload: self.payload@ }
    }
}

/// Why a message could not be handed on.
#[derive(Debug, Clone, PartialEq, Eq)]
pub enum Error {
    /// Reading the members of a list failed; holds what the system said.
    IoError(String),
    /// There is nowhere to send the message to.
    SendError,
}

/// One piece of work that a message gives rise to.
#[derive(Debug, Clone, PartialEq, Eq)]
pub enum Dispatch {
    /// Deliver to each member of a list, in the list's name.
    Group { from: String, list: List },
    /// Relay once.
    Forward { to: String, from: String, server: String, port: Option<u16>, tls_name: String },
}

/// A `Dispatch` as contracts speak of it.
pub enum Order {
    Group { from: Seq<char>, roll: Roll },
    Forward {
        to: Seq<char>,
        from: Seq<char>,
        server: Seq<char>,
        port: Option<u16>,
        tls_name: Seq<char>,
    },
}

impl View for Dispatch {
    type V = Order;

    open spec fn view(&self) -> Order {
        match self {
            Dispatch::Group { from, list } => Order::Group { from: from@, roll: list@ },
            Dispatch::Forward { to, from, server, port, tls_name } => Order::Forward {
                to: to@,
                from: from@,
                server: server@,
                port: *port,
                tls_name: tls_name@,
            },
        }
    }
}

/// What each piece of work of a plan is.
pub open spec fn orders(plan: Seq<Dispatch>) -> Seq<Order> {
    Seq::new(plan.len(), |i: int| plan[i]@)
}

/// One order for each recipient that is the address of a list, in the order
/// of the recipients.
pub open spec fn group_orders(to: Seq<Seq<char>>, lists: Seq<(Seq<char>, Roll)>) -> Seq<Order>
    decreases to.len(),
{
    if to.len() == 0 {
        Seq::empty()
    } else {
        let before = group_orders(to.drop_last(), lists);
        match lookup(lists, to.last()) {
            Some(roll) => before.push(Order::Group { from: to.last(), roll }),
            None => before,
        }
    }
}

/// The relay of a message that is for no list: to the fixed server, or else
/// to the domain of the first recipient. Nothing where there is no recipient,
/// or no server and no domain.
pub open spec fn relay_order(letter: Letter, relay: Relay) -> Option<Order> {
    if letter.to.len() == 0 {
        None
    } else {
        let server = match relay.server {
            Some(fixed) => Some(fixed),
            None => domain_of(letter.to[0]),
        };
        match server {
            Some(server) => Some(
                Order::Forward {
                    to: letter.to[0],
                    from: letter.from,
                    server,
                    port: relay.port,
                    tls_name: relay.server_tls,
                },
            ),
            None => None,
        }
    }
}

/// What is done with a message. Each recipient that is a list gives one
/// group order. A message without such a recipient is relayed once, where
/// relaying is switched on, and is otherwise for nobody. `None` says that
/// the message was to be relayed and could not be.
pub open spec fn fan_out(letter: Letter, policy: Policy) -> Option<Seq<Order>> {
    let groups = group_orders(letter.to, policy.lists);
    if groups.len() > 0 {
        Some(groups)
    } else {
        match policy.forwarding {
            Some(relay) => if relay.enable {
                match relay_order(letter, relay) {
                    Some(order) => Some(seq![order]),
                    None => None,
                }
            } else {
                Some(Seq::empty())
            },
            None => Some(Seq::empty()),
        }
    }
}

/// A list that holds what `list` holds.
pub fn clone_list(list: &List) -> (copy: List)
    ensures
        copy@ == list@,
{
    match list {
        List::Local(l) => List::Local(LocalList { members: clone_texts(&l.members) }),
        List::Remote(r) => List::Remote(RemoteList { location: r.location.clone() }),
    }
}

impl Mail {
    /// Decides to whom the message is handed on.
    pub fn handle(&self, config: &ServerConfig) -> (r: Result<Vec<Dispatch>, Error>)
        ensures
            match fan_out(self@, config@) {
                Some(plan) => r matches Ok(found) && orders(found@) == plan,
                None => r matches Err(e) && e is SendError,
            },
    {
        let mut plan: Vec<Dispatch> = Vec::new();
        let mut i: usize = 0;
        let ghost to = self@.to;
        while i < self.to.len()
            invariant
                i <= self.to.len(),
                to == self@.to,
                to.len() == self.to@.len(),
                orders(plan@) == group_orders(to.subrange(0, i as int), config@.lists),
            decreases self.to.len() - i,
        {
            proof {
                assert(to.subrange(0, i + 1).drop_last() =~= to.subrange(0, i as int));
            }
            match config.find(self.to[i].as_str()) {
                Some(at) => {
                    let list = clone_list(&config.lists[at].list);
                    plan.push(Dispatch::Group { from: self.to[i].clone(), list });
                },
                None => {},
            }
            i = i + 1;
        }
        proof {
            assert(to.subrange(0, to.len() as int) =~= to);
        }
        if plan.len() > 0 {
            return Ok(plan);
        }
        match &config.forwarding {
            None => Ok(plan),
            Some(relay) => {
                if !relay.enable {
                    return Ok(plan);
                }
                if self.to.len() == 0 {
                    return Err(Error::SendError);
                }
                let server = match &relay.server {
                    Some(fixed) => Some(fixed.clone()),
                    None => domain(self.to[0].as_str()),
                };
                match server {
                    None => Err(Error::SendError),
                    Some(server) => {
                        let order = Dispatch::Forward {
                            to: self.to[0].clone(),
                            from: self.from.clone(),
                            server,
                            port: relay.port,
                            tls_name: relay.server_tls.clone(),
                        };
                        plan.push(order);
                        Ok(plan)
                    },
                }
            },
        }
    }
}

} // verus!
