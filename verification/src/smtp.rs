//! Commands and replies as values, and their form on the wire.
//!
//! A reply is written, and a command or a reply in strict RFC 5321 form is
//! read, by the `smtp_proto` crate; what it reads is taken on trust and given a
//! name, what it writes is stated byte for byte.
use vstd::prelude::*;
use vstd::string::*;
use vstd::utf8::*;
use crate::text::{
    pieces, split_chars, to_chars, trim_back, trim_front, trimmed_by, CharClass,
};

verus! {

/// A command of the dialogue.
#[derive(Debug, Clone, PartialEq, Eq)]
pub enum Request {
    Ehlo { host: String },
    Helo { host: String },
    /// `MAIL FROM`, with the address without its angle brackets.
    Mail { from: String },
    /// `RCPT TO`, with the address without its angle brackets.
    Rcpt { to: String },
    Data,
    Rset,
    Quit,
    StartTls,
    /// A well-formed command that this dialogue has no use for.
    Other,
}

/// A `Request` as contracts speak of it.
pub enum Command {
    Ehlo { host: Seq<char> },
    Helo { host: Seq<char> },
    Mail { from: Seq<char> },
    Rcpt { to: Seq<char> },
    Data,
    Rset,
    Quit,
    StartTls,
    Other,
}

impl View for Request {
    type V = Command;

    open spec fn view(&self) -> Command {
        match self {
            Request::Ehlo { host } => Command::Ehlo { host: host@ },
            Request::Helo { host } => Command::Helo { host: host@ },
            Request::Mail { from } => Command::Mail { from: from@ },
            Request::Rcpt { to } => Command::Rcpt { to: to@ },
            Request::Data => Command::Data,
            Request::Rset => Command::Rset,
            Request::Quit => Command::Quit,
            Request::StartTls => Command::StartTls,
            Request::Other => Command::Other,
        }
    }
}

/// A reply: the three-digit code, the enhanced status code and the text.
#[derive(Debug, Clone, PartialEq, Eq)]
pub struct Response {
    pub code: u16,
    pub class: u8,
    pub subject: u8,
    pub detail: u8,
    pub message: String,
}

/// A `Response` as contracts speak of it.
pub struct Reply {
    pub code: u16,
    pub class: u8,
    pub subject: u8,
    pub detail: u8,
    pub message: Seq<char>,
}

impl View for Response {
    type V = Reply;

    open spec fn view(&self) -> Reply {
        Reply {
            code: self.code,
            class: self.class,
            subject: self.subject,
            detail: self.detail,
            message: self.message@,
        }
    }
}

/// An address without the angle brackets around it.
pub open spec fn strip_brackets(s: Seq<char>) -> Seq<char> {
    trim_back(trim_front(s, CharClass::Is('<')), CharClass::Is('>'))
}

/// The domain of an address: what stands between its first `@` and the next
/// one, or the end, without closing angle brackets. An address without `@`
/// has none.
pub open spec fn domain_of(address: Seq<char>) -> Option<Seq<char>> {
    let parts = pieces(address, seq!['@']);
    if parts.len() < 2 {
        None
    } else {
        Some(trim_back(parts[1], CharClass::Is('>')))
    }
}

/// The address without the angle brackets around it.
pub fn strip(address: &str) -> (bare: String)
    ensures
        bare@ == strip_brackets(address@),
{
    let chars = to_chars(address);
    trimmed_by(&chars, CharClass::Is('<'), CharClass::Is('>'))
}

/// The domain of the address, where it has one.
pub fn domain(address: &str) -> (found: Option<String>)
    ensures
        match domain_of(address@) {
            Some(d) => found matches Some(s) && s@ == d,
            None => found is None,
        },
{
    let chars = to_chars(address);
    let at = vec!['@'];
    proof {
        assert(at@ =~= seq!['@']);
    }
    let parts = split_chars(&chars, &at);
    if parts.len() < 2 {
        return None;
    }
    let second = to_chars(parts[1].as_str());
    proof {
        let s = second@;
        assert(trim_front(s, CharClass::Nothing) =~= s);
    }
    Some(trimmed_by(&second, CharClass::Nothing, CharClass::Is('>')))
}

/// The decimal digits of `n`, in ASCII, without leading zeros.
pub open spec fn decimal(n: nat) -> Seq<u8>
    decreases n,
{
    if n < 10 {
        seq![(48 + n) as u8]
    } else {
        decimal(n / 10).push((48 + n % 10) as u8)
    }
}

/// The end of a line: carriage return, line feed.
pub open spec fn crlf() -> Seq<u8> {
    seq![13u8, 10u8]
}

/// The line that ends a message body: a full stop alone on its line.
pub open spec fn terminator() -> Seq<u8> {
    seq![13u8, 10u8, 46u8, 13u8, 10u8]
}

impl Reply {
    /// The reply on the wire: code, space, enhanced code with full stops,
    /// space, text, end of line.
    pub open spec fn bytes(self) -> Seq<u8> {
        decimal(self.code as nat) + seq![32u8] + decimal(self.class as nat) + seq![46u8] + decimal(
            self.subject as nat,
        ) + seq![46u8] + decimal(self.detail as nat) + seq![32u8] + encode_utf8(self.message)
            + crlf()
    }

    /// A reply that tells the peer to go on: 2xx or 3xx.
    pub open spec fn positive(self) -> bool {
        200 <= self.code < 400
    }
}

impl Command {
    /// The command as a line of text, without the end of line. Addresses go
    /// between angle brackets.
    pub open spec fn line(self) -> Seq<char> {
        match self {
            Command::Ehlo { host } => "EHLO "@ + host,
            Command::Helo { host } => "HELO "@ + host,
            Command::Mail { from } => "MAIL FROM:<"@ + from + ">"@,
            Command::Rcpt { to } => "RCPT TO:<"@ + to + ">"@,
            Command::Data => "DATA"@,
            Command::Rset => "RSET"@,
            Command::Quit => "QUIT"@,
            Command::StartTls => "STARTTLS"@,
            Command::Other => Seq::empty(),
        }
    }
}

impl Command {
    /// The verb of the command; a command that the dialogue has no use for
    /// has none here.
    pub open spec fn verb(self) -> Option<Seq<char>> {
        match self {
            Command::Ehlo { .. } => Some("EHLO"@),
            Command::Helo { .. } => Some("HELO"@),
            Command::Mail { .. } => Some("MAIL"@),
            Command::Rcpt { .. } => Some("RCPT"@),
            Command::Data => Some("DATA"@),
            Command::Rset => Some("RSET"@),
            Command::Quit => Some("QUIT"@),
            Command::StartTls => Some("STARTTLS"@),
            Command::Other => None,
        }
    }
}

impl Response {
    /// A reply from its parts.
    pub fn new(code: u16, class: u8, subject: u8, detail: u8, message: &str) -> (r: Response)
        ensures
            r@ == (Reply { code, class, subject, detail, message: message@ }),
    {
        Response { code, class, subject, detail, message: String::from_str(message) }
    }

    /// Whether the reply tells the peer to go on.
    pub fn is_positive(&self) -> (b: bool)
        ensures
            b == self@.positive(),
    {
        200 <= self.code && self.code < 400
    }

    /// The reply on the wire.
    pub fn to_bytes(&self) -> (out: Vec<u8>)
        ensures
            out@ == self@.bytes(),
    {
        write_response(self.code, self.class, self.subject, self.detail, self.message.as_str())
    }
}

impl Request {
    /// The verb of the command.
    pub fn verb(&self) -> (v: Option<String>)
        ensures
            match self@.verb() {
                Some(text) => v matches Some(s) && s@ == text,
                None => v is None,
            },
    {
        match self {
            Request::Ehlo { .. } => Some(String::from_str("EHLO")),
            Request::Helo { .. } => Some(String::from_str("HELO")),
            Request::Mail { .. } => Some(String::from_str("MAIL")),
            Request::Rcpt { .. } => Some(String::from_str("RCPT")),
            Request::Data => Some(String::from_str("DATA")),
            Request::Rset => Some(String::from_str("RSET")),
            Request::Quit => Some(String::from_str("QUIT")),
            Request::StartTls => Some(String::from_str("STARTTLS")),
            Request::Other => None,
        }
    }

    /// The command as a line of text, without the end of line.
    pub fn line(&self) -> (s: String)
        requires
            !(self@ is Other),
        ensures
            s@ == self@.line(),
    {
        match self {
            Request::Ehlo { host } => String::from_str("EHLO ").concat(host.as_str()),
            Request::Helo { host } => String::from_str("HELO ").concat(host.as_str()),
            Request::Mail { from } => String::from_str("MAIL FROM:<").concat(from.as_str()).concat(
                ">",
            ),
            Request::Rcpt { to } => String::from_str("RCPT TO:<").concat(to.as_str()).concat(">"),
            Request::Data => String::from_str("DATA"),
            Request::Rset => String::from_str("RSET"),
            Request::Quit => String::from_str("QUIT"),
            Request::StartTls => String::from_str("STARTTLS"),
            Request::Other => String::new(),
        }
    }
}

/// What `smtp_proto` makes of one line, end of line included, read as a
/// command in strict form: the command, or nothing where it refuses the line.
pub uninterp spec fn strict_request(line: Seq<u8>) -> Option<Command>;

/// What `smtp_proto` makes of the bytes of a reply.
#[derive(Debug, Clone, PartialEq, Eq)]
pub enum Reading {
    /// A whole reply, of one line or of several.
    Complete(Response),
    /// The bytes end before the reply does.
    Incomplete,
    /// The bytes are no reply.
    Malformed,
}

/// A `Reading` as contracts speak of it.
pub enum Read {
    Complete(Reply),
    Incomplete,
    Malformed,
}

impl View for Reading {
    type V = Read;

    open spec fn view(&self) -> Read {
        match self {
            Reading::Complete(r) => Read::Complete(r@),
            Reading::Incomplete => Read::Incomplete,
            Reading::Malformed => Read::Malformed,
        }
    }
}

/// What `smtp_proto` reads at the front of `bytes` as a reply, and how many
/// of the bytes it has taken by then.
pub uninterp spec fn strict_reply(bytes: Seq<u8>) -> (Read, nat);

/// The longest line that is read as a command in strict form.
pub const LONGEST_LINE: usize = 0x7fff_ffff;

/// `smtp_proto::Request::parse` on one line. The contract names the result:
/// the same line is always read as the same command. Of the commands that
/// carry more than this dialogue reads, only the host or the address is kept.
/// The crate counts what it finds in a line in 32 bits, so the line must be
/// short enough for that.
#[verifier::external_body]
pub(crate) fn parse_request(line: &[u8]) -> (r: Option<Request>)
    requires
        line@.len() <= LONGEST_LINE,
    ensures
        r is Some <==> strict_request(line@) is Some,
        r matches Some(q) ==> strict_request(line@) == Some(q@),
{
    Some(
        match smtp_proto::Request::parse(&mut line.iter()).ok()? {
            smtp_proto::Request::Ehlo { host } => Request::Ehlo { host: host.into_owned() },
            smtp_proto::Request::Helo { host } => Request::Helo { host: host.into_owned() },
            smtp_proto::Request::Mail { from } => Request::Mail { from: from.address.into_owned() },
            smtp_proto::Request::Rcpt { to } => Request::Rcpt { to: to.address.into_owned() },
            smtp_proto::Request::Data => Request::Data,
            smtp_proto::Request::Rset => Request::Rset,
            smtp_proto::Request::Quit => Request::Quit,
            smtp_proto::Request::StartTls => Request::StartTls,
            _ => Request::Other,
        },
    )
}

/// `smtp_proto::Response::write` into a vector. The crate writes the code and
/// the three parts of the enhanced code in decimal, with a space after the
/// code, full stops between the parts and a space after them, then the text
/// as it stands, then carriage return and line feed. Writing into a vector
/// cannot fail.
#[verifier::external_body]
pub(crate) fn write_response(code: u16, class: u8, subject: u8, detail: u8, message: &str) -> (out:
    Vec<u8>)
    ensures
        out@ == (Reply { code, class, subject, detail, message: message@ }).bytes(),
{
    let mut out = Vec::new();
    let _ = smtp_proto::Response::new(code, class, subject, detail, message).write(&mut out);
    out
}

/// `smtp_proto::response::parser::ResponseReceiver::parse`, from a receiver
/// in its first state. The contract names what is read and how many bytes are
/// taken; the crate only ever steps forward through the bytes, so what is left
/// is the end of what was given.
#[verifier::external_body]
pub(crate) fn parse_response(bytes: &[u8]) -> (r: (Reading, Vec<u8>))
    ensures
        r.0@ == strict_reply(bytes@).0,
        r.1@.len() + strict_reply(bytes@).1 == bytes@.len(),
        r.1@ == bytes@.subrange(strict_reply(bytes@).1 as int, bytes@.len() as int),
{
    let mut rest = bytes.iter();
    let reading = match smtp_proto::response::parser::ResponseReceiver::default().parse(&mut rest) {
        Ok(r) => Reading::Complete(
            Response {
                code: r.code,
                class: r.esc[0],
                subject: r.esc[1],
                detail: r.esc[2],
                message: r.message,
            },
        ),
        Err(smtp_proto::Error::NeedsMoreData { .. }) => Reading::Incomplete,
        Err(_) => Reading::Malformed,
    };
    (reading, rest.as_slice().to_vec())
}

} // verus!
