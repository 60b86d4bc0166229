//! A sender is named and recipients are taken.
use vstd::prelude::*;
use crate::client_handler::states::recieving::RecievingState;
use crate::client_handler::{
    command_step, get_recipients, outcome, read_command, State, StateType, Step,
};
use crate::error::Error;
use crate::io::rx;
use crate::text::{clone_texts, texts};

verus! {

/// The state of a session that collects the envelope of a message.
#[derive(Debug, Clone)]
pub struct FromState {
    pub foreign_host: String,
    /// The sender, without angle brackets.
    pub from: String,
    /// The recipients so far, without angle brackets, in the order in which
    /// they were named.
    pub to: Vec<String>,
}

impl FromState {
    /// The state that the session is in.
    pub fn from(value: &State) -> (found: FromState)
        requires
            value.state_type is From,
        ensures
            found.foreign_host@ == value.state_type->From_0.foreign_host@,
            found.from@ == value.state_type->From_0.from@,
            texts(found.to@) == texts(value.state_type->From_0.to@),
    {
        match &value.state_type {
            StateType::From(v) => FromState {
                foreign_host: v.foreign_host.clone(),
                from: v.from.clone(),
                to: clone_texts(&v.to),
            },
            _ => FromState { foreign_host: String::new(), from: String::new(), to: Vec::new() },
        }
    }
}

/// Takes one step of a session that collects an envelope. `RCPT` adds a
/// recipient; `DATA` announces the body, however many recipients there are.
pub fn handle_from(state: &mut State) -> (r: Result<Step, Error>)
    requires
        old(state).state_type is From,
    ensures
        final(state)@ == command_step(old(state)@).0,
        outcome(r) == command_step(old(state)@).1,
{
    let mut from_state = FromState::from(state);
    let line = match rx(&mut state.stream) {
        Err(e) => {
            return Err(e);
        },
        Ok(None) => {
            return Ok(Step::Wait);
        },
        Ok(Some(line)) => line,
    };
    let request = match read_command(line.as_str()) {
        Err(e) => {
            return Err(e);
        },
        Ok(request) => request,
    };
    match get_recipients(&mut state.stream, &mut from_state.to, &request) {
        Err(e) => Err(e),
        Ok(true) => {
            state.state_type = StateType::Recieving(
                RecievingState {
                    foreign_host: from_state.foreign_host,
                    from: from_state.from,
                    to: from_state.to,
                },
            );
            Ok(Step::Continue)
        },
        Ok(false) => {
            state.state_type = StateType::From(from_state);
            Ok(Step::Continue)
        },
    }
}

} // verus!
