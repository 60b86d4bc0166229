//! What can end a step of a session or of a delivery.
use vstd::prelude::*;
use vstd::string::*;

verus! {

/// The ways in which a command, an address or a transport can be refused.
#[derive(Debug, Clone, PartialEq, Eq)]
pub enum Error {
    /// A line that is no command, or a command that the present state does
    /// not take. Holds the text that was refused, where there is one.
    InvalidCommand(Option<String>),
    /// The peer asked to end the session. No fault: the signal to close.
    Quit,
    /// An address without `@`, a literal that is no address, or a domain for
    /// which the name service has no answer.
    InvalidMail,
    /// The transport failed: a read or a write, a connection, a handshake,
    /// or a peer that answered a command with a refusal.
    TransportError,
    /// The transport was asked for what its present layer cannot do.
    ProtocolMisuse,
}

/// An `Error` as contracts speak of it: the refused text by its characters.
pub enum Fault {
    InvalidCommand(Option<Seq<char>>),
    Quit,
    InvalidMail,
    TransportError,
    ProtocolMisuse,
}

impl View for Error {
    type V = Fault;

    open spec fn view(&self) -> Fault {
        match self {
            Error::InvalidCommand(Some(text)) => Fault::InvalidCommand(Some(text@)),
            Error::InvalidCommand(None) => Fault::InvalidCommand(None),
            Error::Quit => Fault::Quit,
            Error::InvalidMail => Fault::InvalidMail,
            Error::TransportError => Fault::TransportError,
            Error::ProtocolMisuse => Fault::ProtocolMisuse,
        }
    }
}

impl Error {
    /// The variant's name, as a log line shows it.
    pub open spec fn name_of(fault: Fault) -> Seq<char> {
        match fault {
            Fault::InvalidCommand(_) => "InvalidCommand"@,
            Fault::Quit => "Quit"@,
            Fault::InvalidMail => "InvalidMail"@,
            Fault::TransportError => "TransportError"@,
            Fault::ProtocolMisuse => "ProtocolMisuse"@,
        }
    }

    /// The variant's name.
    pub fn name(&self) -> (s: String)
        ensures
            s@ == Error::name_of(self@),
    {
        match self {
            Error::InvalidCommand(_) => String::from_str("InvalidCommand"),
            Error::Quit => String::from_str("Quit"),
            Error::InvalidMail => String::from_str("InvalidMail"),
            Error::TransportError => String::from_str("TransportError"),
            Error::ProtocolMisuse => String::from_str("ProtocolMisuse"),
        }
    }

    /// Whether the session can go on after this error.
    pub fn recoverable(&self) -> (b: bool)
        ensures
            b == (self@ is InvalidCommand),
    {
        match self {
            Error::InvalidCommand(_) => true,
            _ => false,
        }
    }
}

} // verus!
