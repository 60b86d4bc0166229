//! The transport as the dialogue sees it: two byte buffers and the layer they
//! travel on.
//!
//! Whoever owns the socket feeds what it has read into `inbound` and writes
//! out what it finds in `outbound`. Everything between the two is decided
//! here. The layer is either plain TCP or TLS, and it changes once, from the
//! first to the second.
use vstd::prelude::*;
use vstd::string::*;
use vstd::utf8::*;
use crate::error::{Error, Fault};
use crate::io::tx;
use crate::smtp::{
    crlf, parse_request, parse_response, strict_reply, strict_request, terminator, Command, Read,
    Reading, Reply, Request, Response, LONGEST_LINE,
};
use crate::text::{
    blank, count_front, find_bytes, is_blank, lemma_run_front_bounds, pieces,
    seek, split_chars, texts, to_chars, CharClass,
};

verus! {

/// What has come in and not been read yet, and what is to go out.
#[derive(Debug)]
pub struct Wire {
    pub inbound: Vec<u8>,
    pub outbound: Vec<u8>,
}

/// A transport: plain, or wrapped in TLS.
#[derive(Debug)]
pub enum Stream {
    Tcp(Wire),
    Tls(Wire),
}

/// What `String::from_utf8_lossy` makes of `bytes`.
pub uninterp spec fn lossy_text(bytes: Seq<u8>) -> Seq<char>;

/// Whether `rustls_pki_types` takes `name` for the name of a server: a DNS
/// name or an IP address in its reading.
pub uninterp spec fn is_server_name(name: Seq<char>) -> bool;

/// A line feed alone: the end of a line for a reader.
pub open spec fn line_feed() -> Seq<u8> {
    seq![10u8]
}

/// The first line that has come in, its line feed included; nothing where
/// no line feed has come in yet.
pub open spec fn first_line(inbound: Seq<u8>) -> Option<Seq<u8>> {
    let k = seek(inbound, line_feed()) as int;
    if k >= inbound.len() {
        None
    } else {
        Some(inbound.subrange(0, k + 1))
    }
}

/// What is left of `inbound` once its first line is read.
pub open spec fn after_first_line(inbound: Seq<u8>) -> Seq<u8> {
    match first_line(inbound) {
        None => inbound,
        Some(line) => inbound.skip(line.len() as int),
    }
}

/// What is read at the front of `inbound` as a reply.
pub open spec fn first_reply(inbound: Seq<u8>) -> Read {
    strict_reply(inbound).0
}

/// The bytes of `inbound` that the reply at its front is made of.
pub open spec fn first_reply_bytes(inbound: Seq<u8>) -> Seq<u8> {
    inbound.subrange(0, strict_reply(inbound).1 as int)
}

/// What is left of `inbound` once the reply at its front is read. A reply
/// that is not all there is not read.
pub open spec fn after_first_reply(inbound: Seq<u8>) -> Seq<u8> {
    if first_reply(inbound) is Incomplete {
        inbound
    } else {
        inbound.skip(strict_reply(inbound).1 as int)
    }
}

/// The reply to a line that is no command.
pub open spec fn syntax_error() -> Reply {
    Reply { code: 500, class: 5, subject: 5, detail: 0, message: "Syntax Error"@ }
}

/// The reply to `QUIT`.
pub open spec fn farewell() -> Reply {
    Reply { code: 221, class: 2, subject: 0, detail: 0, message: "Byebye!"@ }
}

/// How a read of requests from a buffer ends.
pub enum Turn {
    /// The buffer holds no further whole line.
    Pending,
    /// The peer asked to close.
    Quit,
    /// A command.
    Request(Command),
}

/// What a read of requests does to the buffers, and how it ends.
pub struct Intake {
    /// How many bytes of `inbound` were read.
    pub taken: nat,
    /// What was queued in `outbound`.
    pub replies: Seq<u8>,
    pub turn: Turn,
}

/// The command that a line is in strict form. A line that is longer than
/// the longest that is read is none.
pub open spec fn strict_command(line: Seq<u8>) -> Option<Command> {
    if line.len() <= LONGEST_LINE {
        strict_request(line)
    } else {
        None
    }
}

/// Reads lines from the front of `inbound` up to the first command. Blank
/// lines are passed over, a line that is no command is answered with a
/// syntax error and passed over, `QUIT` is answered with a farewell.
pub open spec fn intake(inbound: Seq<u8>) -> Intake
    decreases inbound.len(),
{
    let k = seek(inbound, line_feed()) as int;
    if k >= inbound.len() {
        Intake { taken: 0, replies: Seq::empty(), turn: Turn::Pending }
    } else {
        let line = inbound.subrange(0, k + 1);
        let after = intake(inbound.subrange(k + 1, inbound.len() as int));
        if blank(line) {
            Intake { taken: (k + 1 + after.taken) as nat, replies: after.replies, turn: after.turn }
        } else {
            match strict_command(line) {
                None => Intake {
                    taken: (k + 1 + after.taken) as nat,
                    replies: syntax_error().bytes() + after.replies,
                    turn: after.turn,
                },
                Some(Command::Quit) => Intake {
                    taken: (k + 1) as nat,
                    replies: farewell().bytes(),
                    turn: Turn::Quit,
                },
                Some(c) => Intake {
                    taken: (k + 1) as nat,
                    replies: Seq::empty(),
                    turn: Turn::Request(c),
                },
            }
        }
    }
}

/// The keyword of one line of a capability reply: what follows the last
/// hyphen, or, in a line without hyphen, the last space.
pub open spec fn capability(line: Seq<char>) -> Seq<char> {
    if line.contains('-') {
        pieces(line, seq!['-']).last()
    } else {
        pieces(line, seq![' ']).last()
    }
}

/// The keywords of a capability reply: one for each line after the first.
pub open spec fn capabilities(text: Seq<char>) -> Seq<Seq<char>> {
    let lines = pieces(text, seq!['\r', '\n']).drop_first();
    Seq::new(lines.len(), |i: int| capability(lines[i]))
}

/// `String::from_utf8`: the string that the bytes encode, where they are
/// UTF-8, and nothing where they are not.
#[verifier::external_body]
pub(crate) fn decode(bytes: Vec<u8>) -> (r: Option<String>)
    ensures
        r is Some <==> valid_utf8(bytes@),
        r matches Some(s) ==> s@ == decode_utf8(bytes@),
{
    String::from_utf8(bytes).ok()
}

/// `String::from_utf8_lossy`: the text that the bytes encode, with a mark
/// in the place of what is no UTF-8. Bytes that are UTF-8 give the text that
/// they encode; of any others the contract only names the result.
#[verifier::external_body]
pub(crate) fn decode_lossy(bytes: &[u8]) -> (s: String)
    ensures
        s@ == lossy_text(bytes@),
        valid_utf8(bytes@) ==> s@ == decode_utf8(bytes@),
{
    String::from_utf8_lossy(bytes).into_owned()
}

/// `rustls_pki_types::ServerName::try_from` on a string: whether it yields a
/// name. The contract names the answer.
#[verifier::external_body]
pub(crate) fn server_name_ok(name: &str) -> (ok: bool)
    ensures
        ok == is_server_name(name@),
{
    rustls_pki_types::ServerName::try_from(name).is_ok()
}

impl Stream {
    /// Whether the layer is TLS.
    pub open spec fn secure(&self) -> bool {
        self is Tls
    }

    /// The buffers, whatever the layer.
    pub open spec fn wire(&self) -> Wire {
        match self {
            Stream::Tcp(w) => *w,
            Stream::Tls(w) => *w,
        }
    }

    /// What has come in and not been read yet.
    pub open spec fn inbound(&self) -> Seq<u8> {
        self.wire().inbound@
    }

    /// What is to go out.
    pub open spec fn outbound(&self) -> Seq<u8> {
        self.wire().outbound@
    }

    /// A plain transport with empty buffers.
    pub fn new() -> (s: Stream)
        ensures
            !s.secure(),
            s.inbound() == Seq::<u8>::empty(),
            s.outbound() == Seq::<u8>::empty(),
    {
        Stream::Tcp(Wire { inbound: Vec::new(), outbound: Vec::new() })
    }

    /// Whether the layer is TLS.
    pub fn is_tls(&self) -> (b: bool)
        ensures
            b == self.secure(),
    {
        match self {
            Stream::Tcp(_) => false,
            Stream::Tls(_) => true,
        }
    }

    fn wire_ref(&self) -> (w: &Wire)
        ensures
            *w == self.wire(),
    {
        match self {
            Stream::Tcp(w) => w,
            Stream::Tls(w) => w,
        }
    }

    fn wire_mut(&mut self) -> (w: &mut Wire)
        ensures
            *w == old(self).wire(),
            final(self).wire() == *final(w),
            final(self).secure() == old(self).secure(),
    {
        match self {
            Stream::Tcp(w) => w,
            Stream::Tls(w) => w,
        }
    }

    /// Hands over bytes that were read from the peer.
    pub fn feed(&mut self, bytes: &[u8])
        ensures
            final(self).inbound() == old(self).inbound() + bytes@,
            final(self).outbound() == old(self).outbound(),
            final(self).secure() == old(self).secure(),
    {
        let w = self.wire_mut();
        w.inbound.extend_from_slice(bytes);
    }

    /// Takes what is to be written to the peer; nothing is left to go out.
    pub fn take_outbound(&mut self) -> (out: Vec<u8>)
        ensures
            out@ == old(self).outbound(),
            final(self).outbound() == Seq::<u8>::empty(),
            final(self).inbound() == old(self).inbound(),
            final(self).secure() == old(self).secure(),
    {
        let w = self.wire_mut();
        let mut out: Vec<u8> = Vec::new();
        core::mem::swap(&mut w.outbound, &mut out);
        out
    }

    /// How many bytes have come in and not been read yet.
    pub fn unread(&self) -> (n: usize)
        ensures
            n == self.inbound().len(),
    {
        self.wire_ref().inbound.len()
    }

    /// Queues bytes to go out.
    fn queue(&mut self, bytes: &Vec<u8>)
        ensures
            final(self).outbound() == old(self).outbound() + bytes@,
            final(self).inbound() == old(self).inbound(),
            final(self).secure() == old(self).secure(),
    {
        let w = self.wire_mut();
        w.outbound.extend_from_slice(bytes.as_slice());
    }

    /// Reads the first `n` bytes that have come in.
    fn take_front(&mut self, n: usize) -> (front: Vec<u8>)
        requires
            n <= old(self).inbound().len(),
        ensures
            front@ == old(self).inbound().subrange(0, n as int),
            final(self).inbound() == old(self).inbound().subrange(
                n as int,
                old(self).inbound().len() as int,
            ),
            final(self).outbound() == old(self).outbound(),
            final(self).secure() == old(self).secure(),
    {
        let w = self.wire_mut();
        let mut rest = w.inbound.split_off(n);
        core::mem::swap(&mut w.inbound, &mut rest);
        rest
    }

    /// Reads one line, its line feed included, where a whole one has come in.
    pub fn take_line(&mut self) -> (line: Option<Vec<u8>>)
        ensures
            match first_line(old(self).inbound()) {
                None => line is None,
                Some(l) => line matches Some(v) && v@ == l,
            },
            final(self).inbound() == after_first_line(old(self).inbound()),
            final(self).outbound() == old(self).outbound(),
            final(self).secure() == old(self).secure(),
    {
        let feed = vec![10u8];
        proof {
            assert(feed@ =~= line_feed());
        }
        let k = find_bytes(&self.wire_ref().inbound, &feed);
        if k >= self.unread() {
            return None;
        }
        Some(self.take_front(k + 1))
    }

    /// Queues a reply.
    pub fn send_response(&mut self, response: &Response)
        ensures
            final(self).outbound() == old(self).outbound() + response@.bytes(),
            final(self).inbound() == old(self).inbound(),
            final(self).secure() == old(self).secure(),
    {
        let bytes = response.to_bytes();
        self.queue(&bytes);
    }

    /// Takes from the buffer what a reading of its front has used: all but
    /// the last `left` bytes. Hands back the reply, where the reading found a
    /// whole one, with the bytes that it was made of. A reading that ended
    /// before the reply did takes nothing; one that found no reply is a fault
    /// of the transport.
    pub fn settle(&mut self, reading: Reading, left: usize) -> (r: Result<
        Option<(Response, Vec<u8>)>,
        Error,
    >)
        requires
            left <= old(self).inbound().len(),
        ensures
            final(self).outbound() == old(self).outbound(),
            final(self).secure() == old(self).secure(),
            match reading@ {
                Read::Incomplete => r matches Ok(None) && final(self).inbound() == old(
                    self).inbound(),
                Read::Malformed => (r matches Err(e) && e@ == Fault::TransportError) && final(
                    self).inbound() == old(self).inbound().skip(old(self).inbound().len() - left),
                Read::Complete(reply) => (r matches Ok(Some(found)) && found.0@ == reply
                    && found.1@ == old(self).inbound().subrange(
                    0,
                    old(self).inbound().len() - left,
                )) && final(self).inbound() == old(self).inbound().skip(
                    old(self).inbound().len() - left,
                ),
            },
    {
        match reading {
            Reading::Incomplete => Ok(None),
            Reading::Malformed => {
                let taken = self.unread() - left;
                let _ = self.take_front(taken);
                Err(Error::TransportError)
            },
            Reading::Complete(response) => {
                let taken = self.unread() - left;
                let raw = self.take_front(taken);
                Ok(Some((response, raw)))
            },
        }
    }

    /// Reads one reply, of one line or of several, where a whole one has come
    /// in; reads nothing where the reply is not all there yet. Bytes that are
    /// no reply are a fault of the transport.
    pub fn recieve_response(&mut self) -> (r: Result<Option<Response>, Error>)
        ensures
            final(self).inbound() == after_first_reply(old(self).inbound()),
            final(self).outbound() == old(self).outbound(),
            final(self).secure() == old(self).secure(),
            match first_reply(old(self).inbound()) {
                Read::Incomplete => r matches Ok(None),
                Read::Malformed => r matches Err(e) && e@ == Fault::TransportError,
                Read::Complete(reply) => r matches Ok(Some(response)) && response@ == reply,
            },
    {
        let (reading, rest) = parse_response(self.wire_ref().inbound.as_slice());
        match self.settle(reading, rest.len()) {
            Ok(Some(found)) => Ok(Some(found.0)),
            Ok(None) => Ok(None),
            Err(e) => Err(e),
        }
    }

    /// Answers a line that is not blank, once it was read as a command or
    /// refused. A line that was refused is answered with a syntax error and
    /// passed over; `QUIT` is answered with a farewell and ends the session;
    /// any other command is handed back.
    pub fn answer(&mut self, parsed: Option<Request>) -> (r: Option<Result<Request, Error>>)
        ensures
            final(self).inbound() == old(self).inbound(),
            final(self).secure() == old(self).secure(),
            match parsed {
                None => r is None && final(self).outbound() == old(self).outbound()
                    + syntax_error().bytes(),
                Some(request) => if request@ is Quit {
                    (r matches Some(Err(e)) && e@ == Fault::Quit) && final(self).outbound() == old(
                        self).outbound() + farewell().bytes()
                } else {
                    (r matches Some(Ok(q)) && q@ == request@) && final(self).outbound() == old(
                        self).outbound()
                },
            },
    {
        match parsed {
            None => {
                self.protocol_error();
                None
            },
            Some(Request::Quit) => Some(Err(self.quit())),
            Some(request) => Some(Ok(request)),
        }
    }

    /// Reads lines up to the first command. Blank lines are passed over; a
    /// line that is no command in strict form is answered with a syntax error
    /// and passed over; `QUIT` is answered with a farewell and ends the
    /// session. Returns nothing where no command has come in yet.
    pub fn recieve_request(&mut self) -> (r: Result<Option<Request>, Error>)
        ensures
            final(self).secure() == old(self).secure(),
            final(self).inbound() == old(self).inbound().skip(
                intake(old(self).inbound()).taken as int,
            ),
            final(self).outbound() == old(self).outbound() + intake(old(self).inbound()).replies,
            match intake(old(self).inbound()).turn {
                Turn::Pending => r matches Ok(None),
                Turn::Quit => r matches Err(e) && e@ == Fault::Quit,
                Turn::Request(c) => r matches Ok(Some(q)) && q@ == c,
            },
    {
        let ghost start = self.inbound();
        let ghost out = self.outbound();
        let ghost done: int = 0;
        let ghost queued: Seq<u8> = Seq::empty();
        let feed = vec![10u8];
        let mut result: Result<Option<Request>, Error> = Ok(None);
        loop
            invariant_except_break
                self.inbound() == start.skip(done as int),
                self.outbound() == out + queued,
                intake(start).taken == done + intake(self.inbound()).taken,
                intake(start).replies == queued + intake(self.inbound()).replies,
                intake(start).turn == intake(self.inbound()).turn,
            invariant
                self.secure() == old(self).secure(),
                start == old(self).inbound(),
                out == old(self).outbound(),
                0 <= done <= start.len(),
                feed@ == line_feed(),
            ensures
                self.inbound() == start.skip(intake(start).taken as int),
                self.outbound() == out + intake(start).replies,
                match intake(start).turn {
                    Turn::Pending => result matches Ok(None),
                    Turn::Quit => result matches Err(e) && e@ == Fault::Quit,
                    Turn::Request(c) => result matches Ok(Some(q)) && q@ == c,
                },
            decreases self.inbound().len(),
        {
            let k = find_bytes(&self.wire_ref().inbound, &feed);
            if k >= self.unread() {
                result = Ok(None);
                break ;
            }
            let line = self.take_front(k + 1);
            if is_blank(&line) {
                proof {
                    done = done + k + 1;
                }
            } else {
                let parsed = if line.len() <= LONGEST_LINE {
                    parse_request(line.as_slice())
                } else {
                    None
                };
                match self.answer(parsed) {
                    None => {
                        proof {
                            done = done + k + 1;
                            queued = queued + syntax_error().bytes();
                        }
                    },
                    Some(Err(e)) => {
                        result = Err(e);
                        break ;
                    },
                    Some(Ok(request)) => {
                        result = Ok(Some(request));
                        break ;
                    },
                }
            }
        }
        result
    }

    /// Queues a command, with the end of its line.
    pub fn send_request(&mut self, request: &Request)
        requires
            !(request@ is Other),
        ensures
            final(self).outbound() == old(self).outbound() + encode_utf8(request@.line()) + crlf(),
            final(self).inbound() == old(self).inbound(),
            final(self).secure() == old(self).secure(),
    {
        let line = request.line();
        tx(self, line.as_str(), true);
    }

    /// Reads a message body where all of it has come in: what stands before
    /// the first terminator. The terminator is read too and dropped. Reads
    /// nothing where no terminator has come in yet.
    pub fn recieve_mail(&mut self) -> (body: Option<Vec<u8>>)
        ensures
            final(self).outbound() == old(self).outbound(),
            final(self).secure() == old(self).secure(),
            ({
                let k = seek(old(self).inbound(), terminator()) as int;
                if k + 5 <= old(self).inbound().len() {
                    &&& body matches Some(b)
                    &&& b@ == old(self).inbound().subrange(0, k as int)
                    &&& final(self).inbound() == old(self).inbound().skip(k + 5)
                } else {
                    body is None && final(self).inbound() == old(self).inbound()
                }
            }),
    {
        let end = vec![13u8, 10u8, 46u8, 13u8, 10u8];
        let k = find_bytes(&self.wire_ref().inbound, &end);
        if self.unread() < 5 || k > self.unread() - 5 {
            return None;
        }
        let mut block = self.take_front(k + 5);
        block.truncate(k);
        Some(block)
    }

    /// Queues a message body as it stands.
    pub fn send_mail(&mut self, mail: &[u8])
        ensures
            final(self).outbound() == old(self).outbound() + mail@,
            final(self).inbound() == old(self).inbound(),
            final(self).secure() == old(self).secure(),
    {
        let w = self.wire_mut();
        w.outbound.extend_from_slice(mail);
    }

    /// Queues the farewell and returns the signal that ends the session.
    pub fn quit(&mut self) -> (e: Error)
        ensures
            e@ == Fault::Quit,
            final(self).outbound() == old(self).outbound() + farewell().bytes(),
            final(self).inbound() == old(self).inbound(),
            final(self).secure() == old(self).secure(),
    {
        let response = Response::new(221, 2, 0, 0, "Byebye!");
        self.send_response(&response);
        Error::Quit
    }

    /// Queues the reply to a line that is no command.
    pub fn protocol_error(&mut self)
        ensures
            final(self).outbound() == old(self).outbound() + syntax_error().bytes(),
            final(self).inbound() == old(self).inbound(),
            final(self).secure() == old(self).secure(),
    {
        let response = Response::new(500, 5, 5, 0, "Syntax Error");
        self.send_response(&response);
    }

    /// Moves a plain transport under TLS, in the role of the server. A
    /// transport that is under TLS already is left as it is.
    pub fn start_tls_server(&mut self) -> (r: Result<(), Error>)
        ensures
            old(self).secure() ==> (r matches Err(e) && e@ == Fault::ProtocolMisuse) && *final(self)
                == *old(self),
            !old(self).secure() ==> r is Ok && final(self).secure() && final(self).wire() == old(self).wire(),
    {
        match self {
            Stream::Tls(_) => Err(Error::ProtocolMisuse),
            Stream::Tcp(w) => {
                let mut moved = Wire { inbound: Vec::new(), outbound: Vec::new() };
                core::mem::swap(w, &mut moved);
                *self = Stream::Tls(moved);
                Ok(())
            },
        }
    }

    /// Moves a plain transport under TLS, in the role of the client, given
    /// whether the name that it expects of the server is the name of a
    /// server. A transport that is under TLS already, or a name that is none,
    /// leaves the transport as it is.
    pub fn start_tls_named(&mut self, named: bool) -> (r: Result<(), Error>)
        ensures
            old(self).secure() ==> (r matches Err(e) && e@ == Fault::ProtocolMisuse) && *final(self)
                == *old(self),
            !old(self).secure() && !named ==> (r matches Err(e) && e@ == Fault::TransportError)
                && *final(self) == *old(self),
            !old(self).secure() && named ==> r is Ok && final(self).secure() && final(self).wire()
                == old(self).wire(),
    {
        if self.is_tls() {
            return Err(Error::ProtocolMisuse);
        }
        if !named {
            return Err(Error::TransportError);
        }
        self.start_tls_server()
    }

    /// Moves a plain transport under TLS, in the role of the client that
    /// expects `server_name`. A transport that is under TLS already, or a name
    /// that is no server's name, leaves the transport as it is.
    pub fn start_tls_client(&mut self, server_name: &str) -> (r: Result<(), Error>)
        ensures
            old(self).secure() ==> (r matches Err(e) && e@ == Fault::ProtocolMisuse) && *final(self)
                == *old(self),
            !old(self).secure() && !is_server_name(server_name@) ==> (r matches Err(e) && e@
                == Fault::TransportError) && *final(self) == *old(self),
            !old(self).secure() && is_server_name(server_name@) ==> r is Ok && final(self).secure()
                && final(self).wire() == old(self).wire(),
    {
        let named = server_name_ok(server_name);
        self.start_tls_named(named)
    }

    /// Reads one reply where a whole one has come in, and returns the
    /// keywords that it advertises. Bytes that are no reply, and a reply that
    /// refuses, are a fault of the transport.
    pub fn recieve_capabilities(&mut self) -> (r: Result<Option<Vec<String>>, Error>)
        ensures
            final(self).inbound() == after_first_reply(old(self).inbound()),
            final(self).outbound() == old(self).outbound(),
            final(self).secure() == old(self).secure(),
            match first_reply(old(self).inbound()) {
                Read::Incomplete => r matches Ok(None),
                Read::Malformed => r matches Err(e) && e@ == Fault::TransportError,
                Read::Complete(reply) => if reply.positive() {
                    r matches Ok(Some(found)) && texts(found@) == capabilities(
                        lossy_text(first_reply_bytes(old(self).inbound())),
                    )
                } else {
                    r matches Err(e) && e@ == Fault::TransportError
                },
            },
    {
        let (reading, rest) = parse_response(self.wire_ref().inbound.as_slice());
        match self.settle(reading, rest.len()) {
            Ok(None) => Ok(None),
            Err(e) => Err(e),
            Ok(Some(found)) => {
                if !found.0.is_positive() {
                    return Err(Error::TransportError);
                }
                let text = decode_lossy(found.1.as_slice());
                Ok(Some(Stream::parse_capabilties(text.as_str())))
            },
        }
    }

    /// The keywords that a capability reply advertises: one for each line
    /// after the first.
    pub fn parse_capabilties(capabilties: &str) -> (found: Vec<String>)
        ensures
            texts(found@) == capabilities(capabilties@),
    {
        let text = to_chars(capabilties);
        let end = vec!['\r', '\n'];
        let hyphen = vec!['-'];
        let space = vec![' '];
        let lines = split_chars(&text, &end);
        let ghost rest = pieces(text@, end@).drop_first();
        let mut found: Vec<String> = Vec::new();
        let mut i: usize = 1;
        while i < lines.len()
            invariant
                1 <= i <= lines.len(),
                texts(lines@) == pieces(text@, end@),
                rest == pieces(text@, end@).drop_first(),
                hyphen@ == seq!['-'],
                space@ == seq![' '],
                found@.len() == i - 1,
                forall|j: int| 0 <= j < i - 1 ==> (#[trigger] found@[j])@ == capability(rest[j]),
            decreases lines.len() - i,
        {
            let line = to_chars(lines[i].as_str());
            proof {
                assert(line@.subrange(0, line@.len() as int) =~= line@);
                lemma_run_front_bounds(line@, CharClass::IsNot('-'));
            }
            let dash = count_front(&line, 0, CharClass::IsNot('-'));
            let parts = if dash < line.len() {
                split_chars(&line, &hyphen)
            } else {
                split_chars(&line, &space)
            };
            assert(parts@.len() == texts(parts@).len());
            let word = parts[parts.len() - 1].clone();
            found.push(word);
            i = i + 1;
        }
        found
    }
}

} // verus!
