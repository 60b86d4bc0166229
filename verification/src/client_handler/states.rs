//! The four states of a session, each with the step that it takes.
pub mod connected;
pub mod from;
pub mod idle;
pub mod recieving;
