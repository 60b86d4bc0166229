//! A peer has connected and has not said who it is.
use vstd::prelude::*;
use crate::client_handler::states::idle::IdleState;
use crate::client_handler::{
    command_step, init_connection, outcome, read_command, State, StateType, Step,
};
use crate::error::Error;
use crate::io::rx;

verus! {

/// The state of a session in which nothing is known of the peer.
#[derive(Debug, Clone)]
pub struct ConnectedState;

/// Takes one step of a session whose peer has not said who it is. `HELO` or
/// `EHLO` with a name makes the session idle under that name; anything else
/// is refused.
pub fn handle_connected(state: &mut State) -> (r: Result<Step, Error>)
    requires
        old(state).state_type is Connected,
    ensures
        final(state)@ == command_step(old(state)@).0,
        outcome(r) == command_step(old(state)@).1,
{
    let line = match rx(&mut state.stream) {
        Err(e) => {
            return Err(e);
        },
        Ok(None) => {
            return Ok(Step::Wait);
        },
        Ok(Some(line)) => line,
    };
    let request = match read_command(line.as_str()) {
        Err(e) => {
            return Err(e);
        },
        Ok(request) => request,
    };
    match init_connection(&mut state.stream, &request) {
        Err(e) => Err(e),
        Ok(foreign_host) => {
            state.state_type = StateType::Idle(IdleState { foreign_host });
            Ok(Step::Continue)
        },
    }
}

} // verus!
