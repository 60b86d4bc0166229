//! A mail-transfer engine without sockets.
//!
//! The inbound SMTP dialogue, the outbound delivery dialogue and the fan-out
//! policy between them are state machines over byte buffers. Whoever owns the
//! sockets, the name service and the files feeds the machines what has come
//! in and carries out what they ask for; every decision is taken here, stated
//! in a contract and proved.
//!
//! - `stream`: the transport as two buffers and a layer, and the reading and
//!   writing of commands, replies and bodies.
//! - `io`: lines of text over a transport.
//! - `smtp`: commands and replies as values.
//! - `client_handler`: the session with a peer that hands in mail.
//! - `mail`: a message, and the plan of what is done with it.
//! - `send_mail`: one delivery, and the deliveries to the members of a list.
//! - `config`, `members`, `cli`: what the engine is told from outside.
//! - `error`: what can go wrong.
//! - `text`: sequences of characters and bytes.
//! - `laws`: what holds of the machines as a whole.
pub mod cli;
pub mod client_handler;
pub mod config;
pub mod error;
pub mod io;
pub mod laws;
pub mod mail;
pub mod members;
pub mod send_mail;
pub mod smtp;
pub mod stream;
pub mod text;
