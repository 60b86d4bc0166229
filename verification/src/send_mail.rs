//! The outbound side: one delivery to one destination, and a group of
//! deliveries to the members of a list.
//!
//! A delivery is a machine. It names what it needs from outside (an answer
//! of the name service, a connection, more bytes, a handshake) as an
//! `Action`, and is told what came of it as an `Event`. It makes every
//! attempt once: what fails is not tried again.
use vstd::prelude::*;
use vstd::string::*;
use vstd::utf8::*;
use crate::error::{Error, Fault};
use crate::smtp::{
    crlf, domain, domain_of, strip, strip_brackets, terminator, Command, Read, Request,
};
use crate::stream::{
    after_first_reply, capabilities, first_reply, first_reply_bytes, is_server_name, lossy_text,
    server_name_ok, Stream,
};
use crate::text::{
    clone_texts, same_text, texts, to_chars, trim_back, trim_front, trimmed_by, CharClass,
};

verus! {

/// The port of a mail server where none is given.
pub const SMTP_PORT: u16 = 25;

/// An IP address as a number: 32 bits of version 4, or 128 bits of version
/// 6, the first byte of the address in the highest place.
#[derive(Debug, Clone, Copy, PartialEq, Eq, Structural)]
pub enum IpAddress {
    V4(u32),
    V6(u128),
}

/// Where a delivery goes, once that is known.
#[derive(Debug, Clone, PartialEq, Eq)]
pub enum DeliveryTarget {
    /// An address that was given as such, and the name that the server's
    /// certificate must bear.
    Literal { address: IpAddress, tls_name: String },
    /// A mail exchanger that the name service gave, and its address.
    Resolved { exchange: String, address: IpAddress },
}

/// Why a delivery failed.
#[derive(Debug, Clone, Copy, PartialEq, Eq, Structural)]
pub enum Cause {
    InvalidMail,
    TransportError,
    ProtocolMisuse,
}

/// How far a delivery has come. Each phase but the first two and the last
/// two waits for one thing from outside.
#[derive(Debug, Clone, Copy, PartialEq, Eq, Structural)]
pub enum Phase {
    /// Nothing has been done.
    Start,
    /// Waits for the literal to be read as an address.
    Literal,
    /// Waits for the mail exchangers of the domain.
    Exchange,
    /// Waits for the addresses of the exchanger.
    Address,
    /// Waits for the connection.
    Connect,
    /// Waits for the server's greeting.
    Greeting,
    /// Waits for the reply to `EHLO`.
    Hello,
    /// Waits for the reply to `STARTTLS`.
    StartTls,
    /// Waits for the handshake.
    Handshake,
    /// Waits for the reply to `EHLO` under TLS.
    SecureHello,
    /// The session stands; nothing of the envelope has been said.
    Ready,
    /// Waits for the reply to `MAIL FROM`.
    MailFrom,
    /// Waits for the reply to `RCPT TO`.
    RcptTo,
    /// Waits for the reply to `DATA`.
    Data,
    /// Waits for the reply to the body.
    Payload,
    /// The message was taken and the session closed.
    Done,
    /// The delivery failed.
    Failed(Cause),
}

/// What the outside reports to a delivery.
#[derive(Debug, Clone, PartialEq, Eq)]
pub enum Event {
    /// Go.
    Begin,
    /// The literal read as an address, or nothing where it is none.
    Literal(Option<IpAddress>),
    /// The mail exchangers that the name service gave, in its order.
    Exchanges(Vec<String>),
    /// The addresses that the name service gave, in its order.
    Addresses(Vec<IpAddress>),
    /// The connection stands.
    Connected,
    /// What was queued is written, and what has come in is in the buffer.
    Received,
    /// The handshake is done.
    Secured,
    /// The name service, the connection or the handshake failed.
    Broken,
}

/// What a delivery needs from outside.
#[derive(Debug, PartialEq, Eq)]
pub enum Action {
    /// Read this text as an IP address.
    ParseLiteral(String),
    /// Ask for the mail exchangers of this domain.
    LookupExchange(String),
    /// Ask for the addresses of this host.
    LookupAddress(String),
    /// Connect to this address and port, in the clear.
    Connect(IpAddress, u16),
    /// Write out what is queued, then read.
    Transfer,
    /// Write out what is queued, then shake hands as the client that expects
    /// this name.
    Handshake(String),
    /// Write out what is queued and close: the delivery has ended so.
    Finish(Result<(), Error>),
}

/// An `Event` as contracts speak of it.
pub enum Signal {
    Begin,
    Literal(Option<IpAddress>),
    Exchanges(Seq<Seq<char>>),
    Addresses(Seq<IpAddress>),
    Connected,
    Received,
    Secured,
    Broken,
}

/// An `Action` as contracts speak of it.
pub enum Demand {
    ParseLiteral(Seq<char>),
    LookupExchange(Seq<char>),
    LookupAddress(Seq<char>),
    Connect(IpAddress, u16),
    Transfer,
    Handshake(Seq<char>),
    Finish(Result<(), Cause>),
}

impl View for Event {
    type V = Signal;

    open spec fn view(&self) -> Signal {
        match self {
            Event::Begin => Signal::Begin,
            Event::Literal(found) => Signal::Literal(*found),
            Event::Exchanges(found) => Signal::Exchanges(texts(found@)),
            Event::Addresses(found) => Signal::Addresses(found@),
            Event::Connected => Signal::Connected,
            Event::Received => Signal::Received,
            Event::Secured => Signal::Secured,
            Event::Broken => Signal::Broken,
        }
    }
}

impl Cause {
    pub open spec fn fault(self) -> Fault {
        match self {
            Cause::InvalidMail => Fault::InvalidMail,
            Cause::TransportError => Fault::TransportError,
            Cause::ProtocolMisuse => Fault::ProtocolMisuse,
        }
    }

    /// The error that names this cause.
    pub fn error(self) -> (e: Error)
        ensures
            e@ == self.fault(),
    {
        match self {
            Cause::InvalidMail => Error::InvalidMail,
            Cause::TransportError => Error::TransportError,
            Cause::ProtocolMisuse => Error::ProtocolMisuse,
        }
    }
}

impl Action {
    /// Whether the action is what `demand` says.
    pub open spec fn is(self, demand: Demand) -> bool {
        match (self, demand) {
            (Action::ParseLiteral(text), Demand::ParseLiteral(t)) => text@ == t,
            (Action::LookupExchange(text), Demand::LookupExchange(t)) => text@ == t,
            (Action::LookupAddress(text), Demand::LookupAddress(t)) => text@ == t,
            (Action::Connect(address, port), Demand::Connect(a, p)) => address == a && port == p,
            (Action::Transfer, Demand::Transfer) => true,
            (Action::Handshake(text), Demand::Handshake(t)) => text@ == t,
            (Action::Finish(Ok(_)), Demand::Finish(Ok(_))) => true,
            (Action::Finish(Err(e)), Demand::Finish(Err(cause))) => e@ == cause.fault(),
            _ => false,
        }
    }
}

/// One delivery: what is sent, to whom, through which server, and how far it
/// has come.
#[derive(Debug)]
pub struct Delivery {
    /// The name that this side gives for itself.
    pub host: String,
    pub msg: Vec<u8>,
    /// The recipient, without angle brackets.
    pub to: String,
    /// The sender, without angle brackets.
    pub from: String,
    /// The domain to deliver to, or an address between square brackets.
    pub server: String,
    pub port: u16,
    /// The name that the server's certificate must bear, where the server is
    /// given as an address.
    pub tls_name: Option<String>,
    pub phase: Phase,
    /// The name to expect in the handshake, once it is known.
    pub name: String,
    /// The address to connect to, once it is known.
    pub address: Option<IpAddress>,
    pub stream: Stream,
}

/// A `Delivery` as contracts speak of it.
pub struct Run {
    pub host: Seq<char>,
    pub msg: Seq<u8>,
    pub to: Seq<char>,
    pub from: Seq<char>,
    pub server: Seq<char>,
    pub port: u16,
    pub tls_name: Option<Seq<char>>,
    pub phase: Phase,
    pub name: Seq<char>,
    pub address: Option<IpAddress>,
    pub secure: bool,
    pub inbound: Seq<u8>,
    pub outbound: Seq<u8>,
}

impl View for Delivery {
    type V = Run;

    open spec fn view(&self) -> Run {
        Run {
            host: self.host@,
            msg: self.msg@,
            to: self.to@,
            from: self.from@,
            server: self.server@,
            port: self.port,
            tls_name: match self.tls_name {
                Some(name) => Some(name@),
                None => None,
            },
            phase: self.phase,
            name: self.name@,
            address: self.address,
            secure: self.stream.secure(),
            inbound: self.stream.inbound(),
            outbound: self.stream.outbound(),
        }
    }
}

/// A server that is given as an address: between square brackets.
pub open spec fn is_literal(server: Seq<char>) -> bool {
    server.len() > 0 && server.first() == '[' && server.last() == ']'
}

/// What stands between the square brackets.
pub open spec fn literal_of(server: Seq<char>) -> Seq<char> {
    trim_back(trim_front(server, CharClass::Is('[')), CharClass::Is(']'))
}

/// A body as it goes over the wire: the body, then a full stop alone on its
/// line. A body that does not end its last line has it ended.
pub open spec fn body_on_wire(msg: Seq<u8>) -> Seq<u8> {
    if msg.len() >= 2 && msg[msg.len() - 2] == 13u8 && msg[msg.len() - 1] == 10u8 {
        msg + seq![46u8, 13u8, 10u8]
    } else {
        msg + terminator()
    }
}

/// The phases in which the session is not yet there.
pub open spec fn connecting(phase: Phase) -> bool {
    match phase {
        Phase::Start | Phase::Literal | Phase::Exchange | Phase::Address | Phase::Connect
        | Phase::Greeting | Phase::Hello | Phase::StartTls | Phase::Handshake
        | Phase::SecureHello => true,
        _ => false,
    }
}

/// The delivery fails.
pub open spec fn fail(run: Run, cause: Cause) -> (Run, Demand) {
    (Run { phase: Phase::Failed(cause), ..run }, Demand::Finish(Err(cause)))
}

/// A command is queued and the delivery waits for the reply.
pub open spec fn say(run: Run, command: Command, phase: Phase) -> (Run, Demand) {
    (
        Run { outbound: run.outbound + encode_utf8(command.line()) + crlf(), phase, ..run },
        Demand::Transfer,
    )
}

/// The address is known: connect.
pub open spec fn connect(run: Run, address: IpAddress) -> (Run, Demand) {
    (
        Run { phase: Phase::Connect, address: Some(address), ..run },
        Demand::Connect(address, run.port),
    )
}

/// The name to expect of a server that is given as an address: the one
/// that was given with it, or else the address itself.
pub open spec fn expected_name(run: Run) -> Seq<char> {
    match run.tls_name {
        Some(name) => name,
        None => literal_of(run.server),
    }
}

/// The first step, given whether the name to expect is the name of a
/// server. A recipient without `@` is refused. A server between square
/// brackets is an address, to be read as one, and the name to expect of it
/// must be the name of a server. Any other server is a domain whose mail
/// exchangers are asked for.
pub open spec fn begin_with(run: Run, named: bool) -> (Run, Demand) {
    if domain_of(run.to) is None {
        fail(run, Cause::InvalidMail)
    } else if is_literal(run.server) {
        if named {
            (
                Run { phase: Phase::Literal, name: expected_name(run), ..run },
                Demand::ParseLiteral(literal_of(run.server)),
            )
        } else {
            fail(run, Cause::TransportError)
        }
    } else {
        (Run { phase: Phase::Exchange, ..run }, Demand::LookupExchange(run.server))
    }
}

/// The first step.
pub open spec fn begin(run: Run) -> (Run, Demand) {
    begin_with(run, is_server_name(expected_name(run)))
}

/// The step that takes the mail exchangers of the domain, given whether the
/// first of them is the name of a server. The first is taken and no other;
/// none at all is a failure.
pub open spec fn exchange_with(run: Run, found: Seq<Seq<char>>, named: bool) -> (Run, Demand) {
    if found.len() == 0 {
        fail(run, Cause::InvalidMail)
    } else if named {
        (Run { phase: Phase::Address, name: found[0], ..run }, Demand::LookupAddress(found[0]))
    } else {
        fail(run, Cause::TransportError)
    }
}

/// The step that follows the handshake, given whether the name that was
/// expected is the name of a server: `EHLO` is said again, under TLS.
pub open spec fn secured_with(run: Run, named: bool) -> (Run, Demand) {
    if run.secure {
        fail(run, Cause::ProtocolMisuse)
    } else if named {
        say(Run { secure: true, ..run }, Command::Ehlo { host: run.host }, Phase::SecureHello)
    } else {
        fail(run, Cause::TransportError)
    }
}

/// What a reply leads to, given whether it tells the delivery to go on and
/// whether it offers TLS. After the greeting comes `EHLO`; where the reply
/// to it offers TLS, `STARTTLS` is said, and a server that then refuses is
/// talked to in the clear. Once the session stands, `MAIL FROM` is followed
/// by `RCPT TO`, `DATA`, the body and `QUIT`. Any other reply that refuses
/// ends the delivery.
pub open spec fn decide(run: Run, positive: bool, offers_tls: bool) -> (Run, Demand) {
    match run.phase {
        Phase::Greeting => if positive {
            say(run, Command::Ehlo { host: run.host }, Phase::Hello)
        } else {
            fail(run, Cause::TransportError)
        },
        Phase::Hello => if !positive {
            fail(run, Cause::TransportError)
        } else if offers_tls {
            say(run, Command::StartTls, Phase::StartTls)
        } else {
            (Run { phase: Phase::Ready, ..run }, Demand::Transfer)
        },
        Phase::StartTls => if positive {
            (Run { phase: Phase::Handshake, ..run }, Demand::Handshake(run.name))
        } else {
            (Run { phase: Phase::Ready, ..run }, Demand::Transfer)
        },
        Phase::SecureHello => if positive {
            (Run { phase: Phase::Ready, ..run }, Demand::Transfer)
        } else {
            fail(run, Cause::TransportError)
        },
        Phase::MailFrom => if positive {
            say(run, Command::Rcpt { to: run.to }, Phase::RcptTo)
        } else {
            fail(run, Cause::TransportError)
        },
        Phase::RcptTo => if positive {
            say(run, Command::Data, Phase::Data)
        } else {
            fail(run, Cause::TransportError)
        },
        Phase::Data => if positive {
            (
                Run { outbound: run.outbound + body_on_wire(run.msg), phase: Phase::Payload, ..run },
                Demand::Transfer,
            )
        } else {
            fail(run, Cause::TransportError)
        },
        Phase::Payload => if positive {
            (say(run, Command::Quit, Phase::Done).0, Demand::Finish(Ok(())))
        } else {
            fail(run, Cause::TransportError)
        },
        _ => fail(run, Cause::ProtocolMisuse),
    }
}

/// Whether the reply at the front of `inbound` offers TLS.
pub open spec fn offers_tls(inbound: Seq<u8>) -> bool {
    capabilities(lossy_text(first_reply_bytes(inbound))).contains("STARTTLS"@)
}

/// Bytes have come in. Without a whole reply the delivery waits for more;
/// bytes that are no reply end it; a reply is read and decided on.
pub open spec fn hear(run: Run) -> (Run, Demand) {
    let heard = Run { inbound: after_first_reply(run.inbound), ..run };
    match first_reply(run.inbound) {
        Read::Incomplete => (run, Demand::Transfer),
        Read::Malformed => fail(heard, Cause::TransportError),
        Read::Complete(reply) => decide(heard, reply.positive(), offers_tls(run.inbound)),
    }
}

/// A step on the way to a session: the address is found, the connection
/// made, the greeting heard, and the session moved under TLS where the
/// server offers it. A failure outside, and what comes out of turn, end the
/// delivery.
pub open spec fn establish(run: Run, signal: Signal) -> (Run, Demand) {
    match (run.phase, signal) {
        (_, Signal::Broken) => fail(run, Cause::TransportError),
        (Phase::Start, Signal::Begin) => begin(run),
        (Phase::Literal, Signal::Literal(found)) => match found {
            Some(address) => connect(run, address),
            None => fail(run, Cause::InvalidMail),
        },
        (Phase::Exchange, Signal::Exchanges(found)) => exchange_with(
            run,
            found,
            found.len() > 0 && is_server_name(found[0]),
        ),
        (Phase::Address, Signal::Addresses(found)) => if found.len() == 0 {
            fail(run, Cause::InvalidMail)
        } else {
            connect(run, found[0])
        },
        (Phase::Connect, Signal::Connected) => (
            Run { phase: Phase::Greeting, ..run },
            Demand::Transfer,
        ),
        (Phase::Handshake, Signal::Secured) => secured_with(run, is_server_name(run.name)),
        (Phase::Greeting, Signal::Received) => hear(run),
        (Phase::Hello, Signal::Received) => hear(run),
        (Phase::StartTls, Signal::Received) => hear(run),
        (Phase::SecureHello, Signal::Received) => hear(run),
        _ => fail(run, Cause::ProtocolMisuse),
    }
}

/// One step of a delivery. A delivery that has ended stays as it is and says
/// so again. A failure outside ends it. Once the session stands, the sender
/// is named at once.
pub open spec fn step(run: Run, signal: Signal) -> (Run, Demand) {
    if run.phase is Done {
        (run, Demand::Finish(Ok(())))
    } else if run.phase is Failed {
        (run, Demand::Finish(Err(run.phase->Failed_0)))
    } else if signal is Broken {
        fail(run, Cause::TransportError)
    } else if run.phase is Ready {
        say(run, Command::Mail { from: run.from }, Phase::MailFrom)
    } else if connecting(run.phase) {
        let (next, demand) = establish(run, signal);
        if next.phase is Ready {
            say(next, Command::Mail { from: next.from }, Phase::MailFrom)
        } else {
            (next, demand)
        }
    } else if signal is Received {
        hear(run)
    } else {
        fail(run, Cause::ProtocolMisuse)
    }
}

/// Begins a delivery of `msg` from `from` to `to` through `server`, which is
/// a domain or an address between square brackets; the port is 25 where none
/// is given. Nothing is done yet: the delivery waits for `Event::Begin`.
pub fn send(
    host: &str,
    msg: &[u8],
    to: &str,
    from: &str,
    server: &str,
    server_port: Option<u16>,
    local_tls_address: Option<&str>,
) -> (delivery: Delivery)
    ensures
        delivery@ == (Run {
            host: host@,
            msg: msg@,
            to: strip_brackets(to@),
            from: strip_brackets(from@),
            server: server@,
            port: match server_port {
                Some(port) => port,
                None => SMTP_PORT,
            },
            tls_name: match local_tls_address {
                Some(name) => Some(name@),
                None => None,
            },
            phase: Phase::Start,
            name: Seq::empty(),
            address: None,
            secure: false,
            inbound: Seq::empty(),
            outbound: Seq::empty(),
        }),
{
    Delivery {
        host: String::from_str(host),
        msg: vstd::slice::slice_to_vec(msg),
        to: strip(to),
        from: strip(from),
        server: String::from_str(server),
        port: match server_port {
            Some(port) => port,
            None => SMTP_PORT,
        },
        tls_name: match local_tls_address {
            Some(name) => Some(String::from_str(name)),
            None => None,
        },
        phase: Phase::Start,
        name: String::new(),
        address: None,
        stream: Stream::new(),
    }
}

/// Whether `found` holds `word`.
pub fn has_text(found: &Vec<String>, word: &str) -> (b: bool)
    ensures
        b == texts(found@).contains(word@),
{
    let mut i: usize = 0;
    while i < found.len()
        invariant
            i <= found.len(),
            forall|j: int| 0 <= j < i ==> texts(found@)[j] != word@,
        decreases found.len() - i,
    {
        if same_text(found[i].as_str(), word) {
            proof {
                assert(texts(found@)[i as int] == word@);
            }
            return true;
        }
        i = i + 1;
    }
    false
}

impl Delivery {
    fn fail(&mut self, cause: Cause) -> (action: Action)
        ensures
            final(self)@ == fail(old(self)@, cause).0,
            action.is(fail(old(self)@, cause).1),
    {
        self.phase = Phase::Failed(cause);
        Action::Finish(Err(cause.error()))
    }

    fn say(&mut self, request: &Request, phase: Phase) -> (action: Action)
        requires
            !(request@ is Other),
        ensures
            final(self)@ == say(old(self)@, request@, phase).0,
            action.is(say(old(self)@, request@, phase).1),
    {
        self.stream.send_request(request);
        self.phase = phase;
        Action::Transfer
    }

    fn connect(&mut self, address: IpAddress) -> (action: Action)
        ensures
            final(self)@ == connect(old(self)@, address).0,
            action.is(connect(old(self)@, address).1),
    {
        self.phase = Phase::Connect;
        self.address = Some(address);
        Action::Connect(address, self.port)
    }

    /// The name to expect of a server that is given as an address.
    pub fn expected_name(&self) -> (name: String)
        ensures
            name@ == expected_name(self@),
    {
        match &self.tls_name {
            Some(name) => name.clone(),
            None => {
                let server = to_chars(self.server.as_str());
                trimmed_by(&server, CharClass::Is('['), CharClass::Is(']'))
            },
        }
    }

    /// Whether the server is given as an address.
    pub fn is_literal(&self) -> (b: bool)
        ensures
            b == is_literal(self.server@),
    {
        let server = to_chars(self.server.as_str());
        let n = server.len();
        n > 0 && server[0] == '[' && server[n - 1] == ']'
    }

    /// Takes the first step, given whether the name to expect is the name
    /// of a server.
    pub fn begin_with(&mut self, named: bool) -> (action: Action)
        ensures
            final(self)@ == begin_with(old(self)@, named).0,
            action.is(begin_with(old(self)@, named).1),
    {
        if domain(self.to.as_str()).is_none() {
            return self.fail(Cause::InvalidMail);
        }
        if self.is_literal() {
            if !named {
                return self.fail(Cause::TransportError);
            }
            let server = to_chars(self.server.as_str());
            let inner = trimmed_by(&server, CharClass::Is('['), CharClass::Is(']'));
            self.name = self.expected_name();
            self.phase = Phase::Literal;
            Action::ParseLiteral(inner)
        } else {
            self.phase = Phase::Exchange;
            Action::LookupExchange(self.server.clone())
        }
    }

    /// Takes the mail exchangers of the domain, given whether the first of
    /// them is the name of a server.
    pub fn exchange_with(&mut self, found: &Vec<String>, named: bool) -> (action: Action)
        ensures
            final(self)@ == exchange_with(old(self)@, texts(found@), named).0,
            action.is(exchange_with(old(self)@, texts(found@), named).1),
    {
        if found.len() == 0 {
            return self.fail(Cause::InvalidMail);
        }
        if !named {
            return self.fail(Cause::TransportError);
        }
        self.phase = Phase::Address;
        self.name = found[0].clone();
        Action::LookupAddress(found[0].clone())
    }

    /// Takes the step that follows the handshake, given whether the name
    /// that was expected is the name of a server.
    pub fn secured_with(&mut self, named: bool) -> (action: Action)
        ensures
            final(self)@ == secured_with(old(self)@, named).0,
            action.is(secured_with(old(self)@, named).1),
    {
        match self.stream.start_tls_named(named) {
            Err(Error::ProtocolMisuse) => self.fail(Cause::ProtocolMisuse),
            Err(_) => self.fail(Cause::TransportError),
            Ok(()) => {
                let hello = Request::Ehlo { host: self.host.clone() };
                self.say(&hello, Phase::SecureHello)
            },
        }
    }

    /// Decides on a reply, given whether it tells the delivery to go on and
    /// whether it offers TLS.
    pub fn decide(&mut self, positive: bool, offers_tls: bool) -> (action: Action)
        ensures
            final(self)@ == decide(old(self)@, positive, offers_tls).0,
            action.is(decide(old(self)@, positive, offers_tls).1),
    {
        match self.phase {
            Phase::Greeting => {
                if positive {
                    let hello = Request::Ehlo { host: self.host.clone() };
                    self.say(&hello, Phase::Hello)
                } else {
                    self.fail(Cause::TransportError)
                }
            },
            Phase::Hello => {
                if !positive {
                    self.fail(Cause::TransportError)
                } else if offers_tls {
                    self.say(&Request::StartTls, Phase::StartTls)
                } else {
                    self.phase = Phase::Ready;
                    Action::Transfer
                }
            },
            Phase::StartTls => {
                if positive {
                    self.phase = Phase::Handshake;
                    Action::Handshake(self.name.clone())
                } else {
                    self.phase = Phase::Ready;
                    Action::Transfer
                }
            },
            Phase::SecureHello => {
                if positive {
                    self.phase = Phase::Ready;
                    Action::Transfer
                } else {
                    self.fail(Cause::TransportError)
                }
            },
            Phase::MailFrom => {
                if positive {
                    let rcpt = Request::Rcpt { to: self.to.clone() };
                    self.say(&rcpt, Phase::RcptTo)
                } else {
                    self.fail(Cause::TransportError)
                }
            },
            Phase::RcptTo => {
                if positive {
                    self.say(&Request::Data, Phase::Data)
                } else {
                    self.fail(Cause::TransportError)
                }
            },
            Phase::Data => {
                if positive {
                    self.send_body();
                    self.phase = Phase::Payload;
                    Action::Transfer
                } else {
                    self.fail(Cause::TransportError)
                }
            },
            Phase::Payload => {
                if positive {
                    let _ = self.say(&Request::Quit, Phase::Done);
                    Action::Finish(Ok(()))
                } else {
                    self.fail(Cause::TransportError)
                }
            },
            _ => self.fail(Cause::ProtocolMisuse),
        }
    }

    fn send_body(&mut self)
        ensures
            final(self)@ == (Run {
                outbound: old(self)@.outbound + body_on_wire(old(self)@.msg),
                ..old(self)@
            }),
    {
        let n = self.msg.len();
        self.stream.send_mail(self.msg.as_slice());
        if n >= 2 && self.msg[n - 2] == 13u8 && self.msg[n - 1] == 10u8 {
            let end = vec![46u8, 13u8, 10u8];
            self.stream.send_mail(end.as_slice());
        } else {
            let end = vec![13u8, 10u8, 46u8, 13u8, 10u8];
            self.stream.send_mail(end.as_slice());
        }
        proof {
            assert(self.stream.outbound() =~= old(self)@.outbound + body_on_wire(self.msg@));
        }
    }

    fn hear(&mut self) -> (action: Action)
        ensures
            final(self)@ == hear(old(self)@).0,
            action.is(hear(old(self)@).1),
    {
        if self.phase == Phase::Hello {
            match self.stream.recieve_capabilities() {
                Ok(None) => Action::Transfer,
                Err(_) => self.fail(Cause::TransportError),
                Ok(Some(found)) => {
                    let offers = has_text(&found, "STARTTLS");
                    self.decide(true, offers)
                },
            }
        } else {
            match self.stream.recieve_response() {
                Ok(None) => Action::Transfer,
                Err(_) => self.fail(Cause::TransportError),
                Ok(Some(reply)) => self.decide(reply.is_positive(), false),
            }
        }
    }

    /// Whether the session is not yet there.
    pub fn is_connecting(&self) -> (b: bool)
        ensures
            b == connecting(self.phase),
    {
        match self.phase {
            Phase::Start
            | Phase::Literal
            | Phase::Exchange
            | Phase::Address
            | Phase::Connect
            | Phase::Greeting
            | Phase::Hello
            | Phase::StartTls
            | Phase::Handshake
            | Phase::SecureHello => true,
            _ => false,
        }
    }

    /// Where the delivery goes, once that is known.
    pub fn target(&self) -> (target: Option<DeliveryTarget>)
        ensures
            match self.address {
                None => target is None,
                Some(address) => if is_literal(self.server@) {
                    target matches Some(DeliveryTarget::Literal { address: a, tls_name })
                        && a == address && tls_name@ == self.name@
                } else {
                    target matches Some(DeliveryTarget::Resolved { exchange, address: a })
                        && a == address && exchange@ == self.name@
                },
            },
    {
        match self.address {
            None => None,
            Some(address) => {
                if self.is_literal() {
                    Some(DeliveryTarget::Literal { address, tls_name: self.name.clone() })
                } else {
                    Some(DeliveryTarget::Resolved { exchange: self.name.clone(), address })
                }
            },
        }
    }

    /// Takes one step: hears what the outside reports and says what is
    /// needed next.
    pub fn advance(&mut self, event: Event) -> (action: Action)
        ensures
            final(self)@ == step(old(self)@, event@).0,
            action.is(step(old(self)@, event@).1),
    {
        match self.phase {
            Phase::Done => {
                return Action::Finish(Ok(()));
            },
            Phase::Failed(cause) => {
                return Action::Finish(Err(cause.error()));
            },
            _ => {},
        }
        if let Event::Broken = event {
            return self.fail(Cause::TransportError);
        }
        if self.phase == Phase::Ready {
            let mail = Request::Mail { from: self.from.clone() };
            return self.say(&mail, Phase::MailFrom);
        }
        if self.is_connecting() {
            let action = establish_smtp_connection(self, event);
            if self.phase == Phase::Ready {
                let mail = Request::Mail { from: self.from.clone() };
                return self.say(&mail, Phase::MailFrom);
            }
            return action;
        }
        match event {
            Event::Received => self.hear(),
            _ => self.fail(Cause::ProtocolMisuse),
        }
    }
}

/// Takes one step on the way to a session: finds the address, connects,
/// greets, and moves under TLS where the server offers it. The session
/// stands once the phase is `Ready`.
pub fn establish_smtp_connection(delivery: &mut Delivery, event: Event) -> (action: Action)
    ensures
        final(delivery)@ == establish(old(delivery)@, event@).0,
        action.is(establish(old(delivery)@, event@).1),
{
    match event {
        Event::Begin => {
            if delivery.phase == Phase::Start {
                let named = server_name_ok(delivery.expected_name().as_str());
                delivery.begin_with(named)
            } else {
                delivery.fail(Cause::ProtocolMisuse)
            }
        },
        Event::Literal(found) => {
            if delivery.phase == Phase::Literal {
                match found {
                    Some(address) => delivery.connect(address),
                    None => delivery.fail(Cause::InvalidMail),
                }
            } else {
                delivery.fail(Cause::ProtocolMisuse)
            }
        },
        Event::Exchanges(found) => {
            if delivery.phase == Phase::Exchange {
                let named = if found.len() > 0 {
                    server_name_ok(found[0].as_str())
                } else {
                    false
                };
                delivery.exchange_with(&found, named)
            } else {
                delivery.fail(Cause::ProtocolMisuse)
            }
        },
        Event::Addresses(found) => {
            if delivery.phase == Phase::Address {
                if found.len() == 0 {
                    return delivery.fail(Cause::InvalidMail);
                }
                delivery.connect(found[0])
            } else {
                delivery.fail(Cause::ProtocolMisuse)
            }
        },
        Event::Connected => {
            if delivery.phase == Phase::Connect {
                delivery.phase = Phase::Greeting;
                Action::Transfer
            } else {
                delivery.fail(Cause::ProtocolMisuse)
            }
        },
        Event::Secured => {
            if delivery.phase == Phase::Handshake {
                let named = server_name_ok(delivery.name.as_str());
                delivery.secured_with(named)
            } else {
                delivery.fail(Cause::ProtocolMisuse)
            }
        },
        Event::Received => {
            if delivery.phase == Phase::Greeting || delivery.phase == Phase::Hello
                || delivery.phase == Phase::StartTls || delivery.phase == Phase::SecureHello {
                delivery.hear()
            } else {
                delivery.fail(Cause::ProtocolMisuse)
            }
        },
        Event::Broken => delivery.fail(Cause::TransportError),
    }
}

/// The deliveries to the members of a list, one after another, and what has
/// come of them so far.
#[derive(Debug)]
pub struct GroupDelivery {
    pub host: String,
    pub msg: Vec<u8>,
    pub members: Vec<String>,
    pub from: String,
    /// How many members have had their delivery, whatever came of it.
    pub attempted: usize,
    /// The members whose delivery failed, in the order of the attempts.
    pub failures: Vec<String>,
}

/// A `GroupDelivery` as contracts speak of it.
pub struct Round {
    pub host: Seq<char>,
    pub msg: Seq<u8>,
    pub members: Seq<Seq<char>>,
    pub from: Seq<char>,
    pub attempted: nat,
    pub failures: Seq<Seq<char>>,
}

impl View for GroupDelivery {
    type V = Round;

    open spec fn view(&self) -> Round {
        Round {
            host: self.host@,
            msg: self.msg@,
            members: texts(self.members@),
            from: self.from@,
            attempted: self.attempted as nat,
            failures: texts(self.failures@),
        }
    }
}

/// The round before any delivery.
pub open spec fn fresh(
    host: Seq<char>,
    msg: Seq<u8>,
    members: Seq<Seq<char>>,
    from: Seq<char>,
) -> Round {
    Round { host, msg, members, from, attempted: 0, failures: Seq::empty() }
}

/// The round once the delivery to the member whose turn it is has ended. A
/// failure is noted against the member; either way the next member's turn
/// comes. A round that has served every member stays as it is.
pub open spec fn record(round: Round, delivered: bool) -> Round {
    if round.attempted >= round.members.len() {
        round
    } else if delivered {
        Round { attempted: round.attempted + 1, ..round }
    } else {
        Round {
            attempted: round.attempted + 1,
            failures: round.failures.push(round.members[round.attempted as int]),
            ..round
        }
    }
}

/// The round after the deliveries whose outcomes are given, in their order.
pub open spec fn record_all(round: Round, outcomes: Seq<bool>) -> Round
    decreases outcomes.len(),
{
    if outcomes.len() == 0 {
        round
    } else {
        record(record_all(round, outcomes.drop_last()), outcomes.last())
    }
}

/// The delivery to one member of a list: to the domain of the member's
/// address, on the usual port, with the domain as the name to expect.
pub open spec fn member_run(round: Round, member: Seq<char>) -> Run {
    let server = match domain_of(member) {
        Some(found) => found,
        None => Seq::empty(),
    };
    Run {
        host: round.host,
        msg: round.msg,
        to: strip_brackets(member),
        from: strip_brackets(round.from),
        server,
        port: SMTP_PORT,
        tls_name: Some(server),
        phase: Phase::Start,
        name: Seq::empty(),
        address: None,
        secure: false,
        inbound: Seq::empty(),
        outbound: Seq::empty(),
    }
}

/// Begins the deliveries of `msg`, in the name of `from`, to the members of
/// a list. No member has had its turn yet.
pub fn send_group(host: &str, msg: &[u8], members: &Vec<String>, from: &str) -> (group:
    GroupDelivery)
    ensures
        group@ == fresh(host@, msg@, texts(members@), from@),
{
    let group = GroupDelivery {
        host: String::from_str(host),
        msg: vstd::slice::slice_to_vec(msg),
        members: clone_texts(members),
        from: String::from_str(from),
        attempted: 0,
        failures: Vec::new(),
    };
    proof {
        assert(texts(group.failures@) =~= Seq::<Seq<char>>::empty());
    }
    group
}

impl GroupDelivery {
    /// Whether every member has had its turn.
    pub fn finished(&self) -> (b: bool)
        ensures
            b == (self@.attempted >= self@.members.len()),
    {
        self.attempted >= self.members.len()
    }

    /// The delivery to the member whose turn it is; none once every member
    /// has had its turn.
    pub fn current(&self) -> (delivery: Option<Delivery>)
        ensures
            match delivery {
                Some(d) => self@.attempted < self@.members.len() && d@ == member_run(
                    self@,
                    self@.members[self@.attempted as int],
                ),
                None => self@.attempted >= self@.members.len(),
            },
    {
        if self.attempted >= self.members.len() {
            return None;
        }
        let member = self.members[self.attempted].as_str();
        let server = match domain(member) {
            Some(found) => found,
            None => String::new(),
        };
        Some(
            send(
                self.host.as_str(),
                self.msg.as_slice(),
                member,
                self.from.as_str(),
                server.as_str(),
                None,
                Some(server.as_str()),
            ),
        )
    }

    /// Notes how the delivery to the member whose turn it is has ended, and
    /// passes the turn on.
    pub fn record(&mut self, outcome: &Result<(), Error>)
        ensures
            final(self)@ == record(old(self)@, outcome is Ok),
    {
        if self.attempted >= self.members.len() {
            return ;
        }
        let ghost before = texts(self.failures@);
        if outcome.is_err() {
            self.failures.push(self.members[self.attempted].clone());
            proof {
                assert(texts(self.failures@) =~= before.push(
                    texts(self.members@)[self.attempted as int],
                ));
            }
        }
        self.attempted = self.attempted + 1;
    }
}

} // verus!
