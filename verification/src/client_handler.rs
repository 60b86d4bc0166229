//! The inbound side: a session with a peer that hands in mail.
//!
//! A session is in one of four states. The peer has connected and not said
//! who it is; it has, and the session is idle; a sender is named and
//! recipients are taken; the body is coming in. Each step reads one line, or
//! one body, from what has come in, queues the reply and moves the state on.
//! Nothing else is a state: a line that is refused leaves the session where
//! it was.
pub mod states;

use vstd::prelude::*;
use vstd::string::*;
use vstd::utf8::*;
use crate::client_handler::states::connected::{handle_connected, ConnectedState};
use crate::client_handler::states::from::{handle_from, FromState};
use crate::client_handler::states::idle::{handle_idle, IdleState};
use crate::client_handler::states::recieving::{handle_recieving, RecievingState};
use crate::config::{Policy, ServerConfig};
use crate::error::{Error, Fault};
use crate::io::line_text;
use crate::mail::{fan_out, orders, Dispatch, Letter, Mail, Order};
use crate::smtp::{crlf, strip_brackets, terminator, Command, Reply, Request, Response};
use crate::stream::{after_first_line, farewell, first_line, syntax_error, Stream};
use crate::text::{
    chars_of, clone_texts, count_front, join, join_texts, matches_at, occurs, pieces, run_front,
    same_text, seek, split_chars, texts, to_chars, trim, trimmed, trimmed_by, upper_all,
    uppercased, CharClass,
};

verus! {

/// A line cut into its verb and what follows.
#[derive(Debug, Clone, PartialEq, Eq)]
pub struct Message {
    /// The verb, in capitals.
    pub command: String,
    /// What follows the verb, cut at each space.
    pub args: Vec<String>,
}

/// A `Message` as contracts speak of it.
pub struct Parsed {
    pub command: Seq<char>,
    pub args: Seq<Seq<char>>,
}

impl View for Message {
    type V = Parsed;

    open spec fn view(&self) -> Parsed {
        Parsed { command: self.command@, args: texts(self.args@) }
    }
}

/// The state of a session.
#[derive(Debug)]
pub enum StateType {
    Connected(ConnectedState),
    Idle(IdleState),
    From(FromState),
    Recieving(RecievingState),
}

/// A session: its state and its transport.
#[derive(Debug)]
pub struct State {
    pub state_type: StateType,
    pub stream: Stream,
}

/// A `StateType` as contracts speak of it.
pub enum SessionState {
    Connected,
    Idle { foreign_host: Seq<char> },
    MailFrom { foreign_host: Seq<char>, sender: Seq<char>, recipients: Seq<Seq<char>> },
    ReceivingData { foreign_host: Seq<char>, sender: Seq<char>, recipients: Seq<Seq<char>> },
}

/// A `State` as contracts speak of it.
pub struct Session {
    pub state: SessionState,
    pub secure: bool,
    pub inbound: Seq<u8>,
    pub outbound: Seq<u8>,
}

impl View for StateType {
    type V = SessionState;

    open spec fn view(&self) -> SessionState {
        match self {
            StateType::Connected(_) => SessionState::Connected,
            StateType::Idle(s) => SessionState::Idle { foreign_host: s.foreign_host@ },
            StateType::From(s) => SessionState::MailFrom {
                foreign_host: s.foreign_host@,
                sender: s.from@,
                recipients: texts(s.to@),
            },
            StateType::Recieving(s) => SessionState::ReceivingData {
                foreign_host: s.foreign_host@,
                sender: s.from@,
                recipients: texts(s.to@),
            },
        }
    }
}

impl View for State {
    type V = Session;

    open spec fn view(&self) -> Session {
        Session {
            state: self.state_type@,
            secure: self.stream.secure(),
            inbound: self.stream.inbound(),
            outbound: self.stream.outbound(),
        }
    }
}

/// What the caller of a step is to do next.
#[derive(Debug, PartialEq, Eq)]
pub enum Step {
    /// Nothing whole has come in: read more.
    Wait,
    /// Write out what is queued and take the next step.
    Continue,
    /// Write out what is queued in the clear, then shake hands as the
    /// server.
    Upgrade,
    /// A message was taken: write out what is queued, tell whoever wants to
    /// know, then do this work.
    Deliver(Vec<Dispatch>),
}

/// A `Step` as contracts speak of it.
pub enum Progress {
    Wait,
    Continue,
    Upgrade,
    Deliver(Seq<Order>),
}

impl View for Step {
    type V = Progress;

    open spec fn view(&self) -> Progress {
        match self {
            Step::Wait => Progress::Wait,
            Step::Continue => Progress::Continue,
            Step::Upgrade => Progress::Upgrade,
            Step::Deliver(plan) => Progress::Deliver(orders(plan@)),
        }
    }
}

/// What a step returns, as contracts speak of it.
pub open spec fn outcome(r: Result<Step, Error>) -> Result<Progress, Fault> {
    match r {
        Ok(step) => Ok(step@),
        Err(e) => Err(e@),
    }
}

/// What each message of a list is.
pub open spec fn letters(messages: Seq<Mail>) -> Seq<Letter> {
    Seq::new(messages.len(), |i: int| messages[i]@)
}

/// A line as verb and arguments. The line is taken without the white space
/// at its ends; the verb is what stands before the first white space, in
/// capitals; what follows that white space is cut at each space. A line of
/// nothing but white space is no command.
pub open spec fn parse(line: Seq<char>) -> Option<Parsed> {
    let t = trim(line);
    let k = run_front(t, CharClass::NotSpace) as int;
    if t.len() == 0 {
        None
    } else if k >= t.len() {
        Some(Parsed { command: upper_all(t), args: Seq::empty() })
    } else {
        Some(
            Parsed {
                command: upper_all(t.subrange(0, k)),
                args: pieces(t.subrange(k + 1, t.len() as int), seq![' ']),
            },
        )
    }
}

/// The address that follows `prefix` at the front of what follows a verb:
/// what stands behind the prefix, without white space around it, as far as
/// the first space, and without angle brackets. Nothing where what follows
/// the verb does not begin with `prefix`.
pub open spec fn address_after(rest: Seq<char>, prefix: Seq<char>) -> Option<Seq<char>> {
    if occurs(rest, prefix, 0) {
        let tail = trim(rest.skip(prefix.len() as int));
        let end = run_front(tail, CharClass::IsNot(' ')) as int;
        Some(strip_brackets(tail.subrange(0, end)))
    } else {
        None
    }
}

/// The command that verb and arguments make. `HELO` and `EHLO` take their
/// first argument for the host. `MAIL` and `RCPT` take the arguments, put
/// together again, for `FROM:` or `TO:` and an address; the address ends
/// at the first space, so it holds none, and what follows it goes unread.
/// The other verbs take no notice of arguments. What is refused comes back
/// in the fault.
pub open spec fn lenient(parsed: Parsed) -> Result<Command, Fault> {
    let rest = join(parsed.args, " "@);
    if parsed.command == "HELO"@ {
        if parsed.args.len() == 0 {
            Err(Fault::InvalidCommand(Some(parsed.command)))
        } else {
            Ok(Command::Helo { host: parsed.args[0] })
        }
    } else if parsed.command == "EHLO"@ {
        if parsed.args.len() == 0 {
            Err(Fault::InvalidCommand(Some(parsed.command)))
        } else {
            Ok(Command::Ehlo { host: parsed.args[0] })
        }
    } else if parsed.command == "MAIL"@ {
        match address_after(rest, "FROM:"@) {
            Some(from) => Ok(Command::Mail { from }),
            None => Err(Fault::InvalidCommand(Some(rest))),
        }
    } else if parsed.command == "RCPT"@ {
        match address_after(rest, "TO:"@) {
            Some(to) => Ok(Command::Rcpt { to }),
            None => Err(Fault::InvalidCommand(Some(rest))),
        }
    } else if parsed.command == "DATA"@ {
        Ok(Command::Data)
    } else if parsed.command == "RSET"@ {
        Ok(Command::Rset)
    } else if parsed.command == "QUIT"@ {
        Ok(Command::Quit)
    } else if parsed.command == "STARTTLS"@ {
        Ok(Command::StartTls)
    } else {
        Err(Fault::InvalidCommand(Some(parsed.command)))
    }
}

/// The command that a line of text is.
pub open spec fn request_of(line: Seq<char>) -> Result<Command, Fault> {
    match parse(line) {
        None => Err(Fault::InvalidCommand(Some(line))),
        Some(parsed) => lenient(parsed),
    }
}

/// The greeting of a server to a peer that has connected.
pub open spec fn greeting() -> Reply {
    Reply { code: 220, class: 2, subject: 2, detail: 0, message: "SMTP mailing-list"@ }
}

/// The reply to `HELO` and to `EHLO` from a peer that has connected: one
/// line.
pub open spec fn welcome(host: Seq<char>) -> Reply {
    Reply { code: 250, class: 2, subject: 5, detail: 0, message: "Welcome "@ + host }
}

/// The reply to `HELO` or `EHLO` from a peer that is known already.
pub open spec fn hello_again(host: Seq<char>) -> Reply {
    Reply { code: 250, class: 2, subject: 5, detail: 0, message: "Hello "@ + host }
}

/// The reply to `RSET`, byte for byte: the line `250 Okay` and its end.
pub open spec fn reset_done() -> Seq<u8> {
    seq![50u8, 53u8, 48u8, 32u8, 79u8, 107u8, 97u8, 121u8, 13u8, 10u8]
}

/// The line `250 Okay`, written with its end, is the reply to `RSET`.
pub proof fn lemma_reset_line()
    ensures
        encode_utf8("250 Okay"@) + crlf() == reset_done(),
{
    reveal_strlit("250 Okay");
    let line = "250 Okay"@;
    assert(is_ascii_chars(line));
    is_ascii_chars_encode_utf8(line);
    assert(encode_utf8(line) + crlf() =~= reset_done());
}

/// The reply to `STARTTLS`.
pub open spec fn go_ahead() -> Reply {
    Reply { code: 220, class: 2, subject: 2, detail: 0, message: "Go ahead"@ }
}

/// The reply to `MAIL FROM`.
pub open spec fn sender_taken(address: Seq<char>) -> Reply {
    Reply {
        code: 250,
        class: 2,
        subject: 1,
        detail: 0,
        message: "Originator "@ + address + " okay"@,
    }
}

/// The reply to `RCPT TO`.
pub open spec fn recipient_taken(address: Seq<char>) -> Reply {
    Reply {
        code: 250,
        class: 2,
        subject: 1,
        detail: 0,
        message: "Reciever "@ + address + " okay"@,
    }
}

/// The reply to `DATA`.
pub open spec fn send_body() -> Reply {
    Reply { code: 354, class: 2, subject: 0, detail: 0, message: "End with CRLF.CRLF"@ }
}

/// The reply to a body that was taken.
pub open spec fn message_taken() -> Reply {
    Reply {
        code: 250,
        class: 2,
        subject: 6,
        detail: 0,
        message: "Message Recieved Succesfully!!"@,
    }
}

/// The reply to a body that could not be handed on.
pub open spec fn message_refused() -> Reply {
    Reply { code: 552, class: 5, subject: 5, detail: 0, message: "Woopsie"@ }
}

/// What a command does to a session.
pub struct Reaction {
    pub next: SessionState,
    /// Whether the transport is under TLS afterwards.
    pub secure: bool,
    /// What is queued to go out.
    pub reply: Seq<u8>,
    pub result: Result<Progress, Fault>,
}

/// The command is refused: nothing changes and nothing is queued.
pub open spec fn refuse(state: SessionState, secure: bool, fault: Fault) -> Reaction {
    Reaction { next: state, secure, reply: Seq::empty(), result: Err(fault) }
}

/// The command is taken and answered.
pub open spec fn accept(next: SessionState, secure: bool, reply: Reply) -> Reaction {
    Reaction { next, secure, reply: reply.bytes(), result: Ok(Progress::Continue) }
}

/// What a command does in each state. A peer that has connected can only
/// say who it is. An idle session takes a sender, a reset, a greeting again,
/// the request for TLS (once) and the request to close. Once a sender is
/// named, recipients are taken, as many as come, none included, until the
/// body is announced. Every other command is refused where it stands.
pub open spec fn react(state: SessionState, secure: bool, command: Command) -> Reaction {
    match state {
        SessionState::Connected => match command {
            Command::Ehlo { host } => accept(
                SessionState::Idle { foreign_host: host },
                secure,
                welcome(host),
            ),
            Command::Helo { host } => accept(
                SessionState::Idle { foreign_host: host },
                secure,
                welcome(host),
            ),
            _ => refuse(state, secure, Fault::InvalidCommand(command.verb())),
        },
        SessionState::Idle { foreign_host } => match command {
            Command::Rset => Reaction {
                next: state,
                secure,
                reply: reset_done(),
                result: Ok(Progress::Continue),
            },
            Command::Quit => Reaction {
                next: state,
                secure,
                reply: farewell().bytes(),
                result: Err(Fault::Quit),
            },
            Command::Helo { .. } => accept(state, secure, hello_again(foreign_host)),
            Command::Ehlo { .. } => accept(state, secure, hello_again(foreign_host)),
            Command::StartTls => if secure {
                refuse(state, secure, Fault::ProtocolMisuse)
            } else {
                Reaction {
                    next: SessionState::Connected,
                    secure: true,
                    reply: go_ahead().bytes(),
                    result: Ok(Progress::Upgrade),
                }
            },
            Command::Mail { from } => accept(
                SessionState::MailFrom { foreign_host, sender: from, recipients: Seq::empty() },
                secure,
                sender_taken(from),
            ),
            _ => refuse(state, secure, Fault::InvalidCommand(command.verb())),
        },
        SessionState::MailFrom { foreign_host, sender, recipients } => match command {
            Command::Rcpt { to } => accept(
                SessionState::MailFrom { foreign_host, sender, recipients: recipients.push(to) },
                secure,
                recipient_taken(to),
            ),
            Command::Data => accept(
                SessionState::ReceivingData { foreign_host, sender, recipients },
                secure,
                send_body(),
            ),
            _ => refuse(state, secure, Fault::InvalidCommand(command.verb())),
        },
        SessionState::ReceivingData { .. } => refuse(state, secure, Fault::ProtocolMisuse),
    }
}

/// One step of a session that waits for a command. Without a whole line
/// nothing happens. A line is read, whatever it says; what it does is what
/// its command does in the state of the session.
pub open spec fn command_step(session: Session) -> (Session, Result<Progress, Fault>) {
    match first_line(session.inbound) {
        None => (session, Ok(Progress::Wait)),
        Some(raw) => {
            let heard = Session { inbound: after_first_line(session.inbound), ..session };
            match line_text(raw) {
                None => (heard, Err(Fault::InvalidCommand(None))),
                Some(text) => match request_of(text) {
                    Err(fault) => (heard, Err(fault)),
                    Ok(command) => {
                        let reaction = react(session.state, session.secure, command);
                        (
                            Session {
                                state: reaction.next,
                                secure: reaction.secure,
                                outbound: heard.outbound + reaction.reply,
                                ..heard
                            },
                            reaction.result,
                        )
                    },
                },
            }
        },
    }
}

/// The message that a body makes with the envelope of the session. The
/// first line end of the terminator ends the last line of the body as well,
/// so the payload keeps it.
pub open spec fn letter_of(sender: Seq<char>, recipients: Seq<Seq<char>>, body: Seq<u8>) -> Letter {
    Letter { from: sender, to: recipients, payload: body + crlf() }
}

/// One step of a session that waits for a body: the session afterwards, what
/// the caller is to do, and the message, if one was taken. Without a whole
/// body nothing happens. A body is read up to its terminator, made into a
/// message and handed on; the session is idle again, with nothing kept but
/// the name of the peer. The reply says whether the message could be handed
/// on.
pub open spec fn body_step(session: Session, policy: Policy) -> (
    Session,
    Result<Progress, Fault>,
    Option<Letter>,
) {
    match session.state {
        SessionState::ReceivingData { foreign_host, sender, recipients } => {
            let k = seek(session.inbound, terminator()) as int;
            if k + 5 > session.inbound.len() {
                (session, Ok(Progress::Wait), None)
            } else {
                let letter = letter_of(sender, recipients, session.inbound.subrange(0, k));
                let idle = Session {
                    state: SessionState::Idle { foreign_host },
                    inbound: session.inbound.skip(k + 5),
                    ..session
                };
                match fan_out(letter, policy) {
                    Some(plan) => (
                        Session { outbound: session.outbound + message_taken().bytes(), ..idle },
                        Ok(Progress::Deliver(plan)),
                        Some(letter),
                    ),
                    None => (
                        Session { outbound: session.outbound + message_refused().bytes(), ..idle },
                        Ok(Progress::Continue),
                        Some(letter),
                    ),
                }
            }
        },
        _ => (session, Err(Fault::ProtocolMisuse), None),
    }
}

/// One step of a session, whatever its state.
pub open spec fn session_step(session: Session, policy: Policy) -> (
    Session,
    Result<Progress, Fault>,
    Option<Letter>,
) {
    match session.state {
        SessionState::ReceivingData { .. } => body_step(session, policy),
        _ => (command_step(session).0, command_step(session).1, None),
    }
}

/// One step of a session as its caller sees it: a line that is no command,
/// or none for the state of the session, is answered with a syntax error,
/// and the session goes on.
pub open spec fn client_step(session: Session, policy: Policy) -> (
    Session,
    Result<Progress, Fault>,
    Option<Letter>,
) {
    let (next, result, letter) = session_step(session, policy);
    match result {
        Err(Fault::InvalidCommand(_)) => (
            Session { outbound: next.outbound + syntax_error().bytes(), ..next },
            Ok(Progress::Continue),
            letter,
        ),
        _ => (next, result, letter),
    }
}

/// Cuts a line into verb and arguments.
pub fn parse_message(message: &str) -> (r: Option<Message>)
    ensures
        match parse(message@) {
            Some(parsed) => r matches Some(m) && m@ == parsed,
            None => r is None,
        },
{
    let line = to_chars(message);
    let t = to_chars(trimmed(&line).as_str());
    if t.len() == 0 {
        return None;
    }
    proof {
        assert(t@.subrange(0, t@.len() as int) =~= t@);
    }
    let k = count_front(&t, 0, CharClass::NotSpace);
    if k >= t.len() {
        let command = uppercased(&t, 0, t.len());
        let args: Vec<String> = Vec::new();
        proof {
            assert(texts(args@) =~= Seq::<Seq<char>>::empty());
        }
        return Some(Message { command, args });
    }
    let command = uppercased(&t, 0, k);
    let rest = chars_of(&t, k + 1, t.len());
    let space = vec![' '];
    proof {
        assert(space@ =~= seq![' ']);
    }
    let args = split_chars(&rest, &space);
    Some(Message { command, args })
}

/// The address that follows `prefix` at the front of what follows a verb.
fn read_address(rest: &str, prefix: &str) -> (r: Option<String>)
    ensures
        match address_after(rest@, prefix@) {
            Some(address) => r matches Some(s) && s@ == address,
            None => r is None,
        },
{
    let rest = to_chars(rest);
    let prefix = to_chars(prefix);
    if !matches_at(&rest, 0, &prefix) {
        return None;
    }
    let behind = chars_of(&rest, prefix.len(), rest.len());
    let tail = to_chars(trimmed(&behind).as_str());
    proof {
        assert(tail@.subrange(0, tail@.len() as int) =~= tail@);
    }
    let end = count_front(&tail, 0, CharClass::IsNot(' '));
    let address = chars_of(&tail, 0, end);
    Some(trimmed_by(&address, CharClass::Is('<'), CharClass::Is('>')))
}

impl Message {
    /// The command that verb and arguments make.
    pub fn request(&self) -> (r: Result<Request, Error>)
        ensures
            match lenient(self@) {
                Ok(command) => r matches Ok(q) && q@ == command,
                Err(fault) => r matches Err(e) && e@ == fault,
            },
    {
        let verb = self.command.as_str();
        if same_text(verb, "HELO") {
            if self.args.len() == 0 {
                return Err(Error::InvalidCommand(Some(self.command.clone())));
            }
            Ok(Request::Helo { host: self.args[0].clone() })
        } else if same_text(verb, "EHLO") {
            if self.args.len() == 0 {
                return Err(Error::InvalidCommand(Some(self.command.clone())));
            }
            Ok(Request::Ehlo { host: self.args[0].clone() })
        } else if same_text(verb, "MAIL") {
            let rest = join_texts(&self.args, " ");
            match read_address(rest.as_str(), "FROM:") {
                Some(from) => Ok(Request::Mail { from }),
                None => Err(Error::InvalidCommand(Some(rest))),
            }
        } else if same_text(verb, "RCPT") {
            let rest = join_texts(&self.args, " ");
            match read_address(rest.as_str(), "TO:") {
                Some(to) => Ok(Request::Rcpt { to }),
                None => Err(Error::InvalidCommand(Some(rest))),
            }
        } else if same_text(verb, "DATA") {
            Ok(Request::Data)
        } else if same_text(verb, "RSET") {
            Ok(Request::Rset)
        } else if same_text(verb, "QUIT") {
            Ok(Request::Quit)
        } else if same_text(verb, "STARTTLS") {
            Ok(Request::StartTls)
        } else {
            Err(Error::InvalidCommand(Some(self.command.clone())))
        }
    }
}

/// The command that a line of text is.
pub fn read_command(line: &str) -> (r: Result<Request, Error>)
    ensures
        match request_of(line@) {
            Ok(command) => r matches Ok(q) && q@ == command,
            Err(fault) => r matches Err(e) && e@ == fault,
        },
{
    match parse_message(line) {
        None => Err(Error::InvalidCommand(Some(String::from_str(line)))),
        Some(message) => message.request(),
    }
}

/// The refusal of a command that the state of the session does not take.
pub fn out_of_place(request: &Request) -> (e: Error)
    ensures
        e@ == Fault::InvalidCommand(request@.verb()),
{
    Error::InvalidCommand(request.verb())
}

/// Queues a reply made of a code and of a text in three parts.
fn reply_with(
    stream: &mut Stream,
    code: u16,
    class: u8,
    subject: u8,
    detail: u8,
    before: &str,
    value: &str,
    after: &str,
)
    ensures
        final(stream).outbound() == old(stream).outbound() + (Reply {
            code,
            class,
            subject,
            detail,
            message: before@ + value@ + after@,
        }).bytes(),
        final(stream).inbound() == old(stream).inbound(),
        final(stream).secure() == old(stream).secure(),
{
    let text = String::from_str(before).concat(value).concat(after);
    let response = Response::new(code, class, subject, detail, text.as_str());
    stream.send_response(&response);
}

/// Takes the command by which a peer says who it is: queues the reply and
/// returns the peer's name. `HELO` and `EHLO` are answered alike, with a
/// welcome of one line. Any other command is refused and nothing is queued.
pub fn init_connection(stream: &mut Stream, request: &Request) -> (r: Result<String, Error>)
    ensures
        final(stream).inbound() == old(stream).inbound(),
        final(stream).secure() == old(stream).secure(),
        match request@ {
            Command::Ehlo { host } => r matches Ok(h) && h@ == host && final(stream).outbound()
                == old(stream).outbound() + welcome(host).bytes(),
            Command::Helo { host } => r matches Ok(h) && h@ == host && final(stream).outbound()
                == old(stream).outbound() + welcome(host).bytes(),
            command => r matches Err(e) && e@ == Fault::InvalidCommand(command.verb()) && final(stream).outbound() == old(stream).outbound(),
        },
{
    match request {
        Request::Ehlo { host } | Request::Helo { host } => {
            reply_with(stream, 250, 2, 5, 0, "Welcome ", host.as_str(), "");
            proof {
                reveal_strlit("");
            }
            Ok(host.clone())
        },
        _ => Err(out_of_place(request)),
    }
}

/// Takes the command that names the sender: queues the reply and returns
/// the sender's address. Any other command is refused and nothing is queued.
pub fn get_sender(stream: &mut Stream, request: &Request) -> (r: Result<String, Error>)
    ensures
        final(stream).inbound() == old(stream).inbound(),
        final(stream).secure() == old(stream).secure(),
        match request@ {
            Command::Mail { from } => r matches Ok(sender) && sender@ == from && final(stream).outbound() == old(stream).outbound() + sender_taken(from).bytes(),
            command => r matches Err(e) && e@ == Fault::InvalidCommand(command.verb()) && final(stream).outbound() == old(stream).outbound(),
        },
{
    match request {
        Request::Mail { from } => {
            reply_with(stream, 250, 2, 1, 0, "Originator ", from.as_str(), " okay");
            Ok(from.clone())
        },
        _ => Err(out_of_place(request)),
    }
}

/// Takes a command while recipients are collected. `RCPT` adds its address
/// to `recipients`; `DATA` ends the collection, which the result says. Each
/// is answered. Any other command is refused, and nothing is queued or
/// added.
pub fn get_recipients(stream: &mut Stream, recipients: &mut Vec<String>, request: &Request) -> (r:
    Result<bool, Error>)
    ensures
        final(stream).inbound() == old(stream).inbound(),
        final(stream).secure() == old(stream).secure(),
        match request@ {
            Command::Rcpt { to } => r matches Ok(false) && texts(final(recipients)@) == texts(
                old(recipients)@,
            ).push(to) && final(stream).outbound() == old(stream).outbound() + recipient_taken(
                to,
            ).bytes(),
            Command::Data => r matches Ok(true) && texts(final(recipients)@) == texts(
                old(recipients)@,
            ) && final(stream).outbound() == old(stream).outbound() + send_body().bytes(),
            command => r matches Err(e) && e@ == Fault::InvalidCommand(command.verb()) && texts(
                final(recipients)@,
            ) == texts(old(recipients)@) && final(stream).outbound() == old(stream).outbound(),
        },
{
    match request {
        Request::Rcpt { to } => {
            reply_with(stream, 250, 2, 1, 0, "Reciever ", to.as_str(), " okay");
            recipients.push(to.clone());
            Ok(false)
        },
        Request::Data => {
            let response = Response::new(354, 2, 0, 0, "End with CRLF.CRLF");
            stream.send_response(&response);
            Ok(true)
        },
        _ => Err(out_of_place(request)),
    }
}

/// Takes a body where all of it has come in, and makes the message of it
/// and of the envelope. Takes nothing where the body is not all there yet.
pub fn recieve_mail(stream: &mut Stream, sender: &str, recipients: &Vec<String>) -> (mail: Option<
    Mail,
>)
    ensures
        final(stream).outbound() == old(stream).outbound(),
        final(stream).secure() == old(stream).secure(),
        ({
            let k = seek(old(stream).inbound(), terminator()) as int;
            if k + 5 <= old(stream).inbound().len() {
                &&& mail matches Some(m)
                &&& m@ == letter_of(
                    sender@,
                    texts(recipients@),
                    old(stream).inbound().subrange(0, k),
                )
                &&& final(stream).inbound() == old(stream).inbound().skip(k + 5)
            } else {
                mail is None && final(stream).inbound() == old(stream).inbound()
            }
        }),
{
    match stream.recieve_mail() {
        None => None,
        Some(body) => {
            let mut payload = body;
            payload.push(13u8);
            payload.push(10u8);
            proof {
                assert(payload@ =~= body@ + crlf());
            }
            Some(Mail { from: String::from_str(sender), to: clone_texts(recipients), payload })
        },
    }
}

impl State {
    /// The session with a peer that has just connected: the greeting is
    /// queued, in the clear.
    pub fn new() -> (state: State)
        ensures
            state@ == (Session {
                state: SessionState::Connected,
                secure: false,
                inbound: Seq::empty(),
                outbound: greeting().bytes(),
            }),
    {
        let mut stream = Stream::new();
        let response = Response::new(220, 2, 2, 0, "SMTP mailing-list");
        stream.send_response(&response);
        State { state_type: StateType::Connected(ConnectedState), stream }
    }
}

/// Takes one step of the session, whatever its state: reads a line or a
/// body where a whole one has come in, answers it, and moves the state on. A
/// message that was taken is added to `messages`. A line that is no command,
/// or none for the state, is answered with a syntax error; the session goes
/// on where it was.
pub fn handle_client(state: &mut State, messages: &mut Vec<Mail>, config: &ServerConfig) -> (r:
    Result<Step, Error>)
    ensures
        final(state)@ == client_step(old(state)@, config@).0,
        outcome(r) == client_step(old(state)@, config@).1,
        letters(final(messages)@) == match client_step(old(state)@, config@).2 {
            Some(letter) => letters(old(messages)@).push(letter),
            None => letters(old(messages)@),
        },
{
    let r = match &state.state_type {
        StateType::Connected(_) => handle_connected(state),
        StateType::Idle(_) => handle_idle(state),
        StateType::From(_) => handle_from(state),
        StateType::Recieving(_) => handle_recieving(state, messages, config),
    };
    match r {
        Err(Error::InvalidCommand(_)) => {
            state.stream.protocol_error();
            Ok(Step::Continue)
        },
        other => other,
    }
}

} // verus!
