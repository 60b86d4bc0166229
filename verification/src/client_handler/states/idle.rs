//! The peer is known and no message is under way.
use vstd::prelude::*;
use vstd::string::*;
use vstd::utf8::*;
use crate::client_handler::states::connected::ConnectedState;
use crate::client_handler::states::from::FromState;
use crate::client_handler::{
    command_step, get_sender, lemma_reset_line, outcome, read_command, State, StateType, Step,
};
use crate::error::Error;
use crate::io::{rx, tx};
use crate::smtp::{crlf, Request, Response};
use crate::text::texts;

verus! {

/// The state of a session between messages.
#[derive(Debug, Clone)]
pub struct IdleState {
    /// The name that the peer gave for itself.
    pub foreign_host: String,
}

impl IdleState {
    /// The idle state that the session is in.
    pub fn from(value: &State) -> (idle: IdleState)
        requires
            value.state_type is Idle,
        ensures
            idle.foreign_host@ == value.state_type->Idle_0.foreign_host@,
    {
        match &value.state_type {
            StateType::Idle(idle_state) => IdleState {
                foreign_host: idle_state.foreign_host.clone(),
            },
            _ => IdleState { foreign_host: String::new() },
        }
    }
}

/// Takes one step of an idle session. `MAIL` names the sender of a message;
/// `RSET` and a greeting are answered and change nothing; `QUIT` is answered
/// and ends the session; `STARTTLS` moves a session that is in the clear
/// under TLS and makes the peer a stranger again.
pub fn handle_idle(state: &mut State) -> (r: Result<Step, Error>)
    requires
        old(state).state_type is Idle,
    ensures
        final(state)@ == command_step(old(state)@).0,
        outcome(r) == command_step(old(state)@).1,
{
    let idle_state = IdleState::from(state);
    let line = match rx(&mut state.stream) {
        Err(e) => {
            return Err(e);
        },
        Ok(None) => {
            return Ok(Step::Wait);
        },
        Ok(Some(line)) => line,
    };
    let request = match read_command(line.as_str()) {
        Err(e) => {
            return Err(e);
        },
        Ok(request) => request,
    };
    match request {
        Request::Rset => {
            let ghost before = state.stream.outbound();
            tx(&mut state.stream, "250 Okay", true);
            proof {
                lemma_reset_line();
                assert(state.stream.outbound() =~= before + (encode_utf8("250 Okay"@) + crlf()));
            }
            Ok(Step::Continue)
        },
        Request::Quit => Err(state.stream.quit()),
        Request::Helo { .. } | Request::Ehlo { .. } => {
            let text = String::from_str("Hello ").concat(idle_state.foreign_host.as_str());
            let response = Response::new(250, 2, 5, 0, text.as_str());
            state.stream.send_response(&response);
            Ok(Step::Continue)
        },
        Request::StartTls => {
            if state.stream.is_tls() {
                return Err(Error::ProtocolMisuse);
            }
            let response = Response::new(220, 2, 2, 0, "Go ahead");
            state.stream.send_response(&response);
            match state.stream.start_tls_server() {
                Err(e) => Err(e),
                Ok(()) => {
                    state.state_type = StateType::Connected(ConnectedState);
                    Ok(Step::Upgrade)
                },
            }
        },
        other => match get_sender(&mut state.stream, &other) {
            Err(e) => Err(e),
            Ok(from) => {
                let to: Vec<String> = Vec::new();
                proof {
                    assert(texts(to@) =~= Seq::<Seq<char>>::empty());
                }
                state.state_type = StateType::From(
                    FromState { foreign_host: idle_state.foreign_host, from, to },
                );
                Ok(Step::Continue)
            },
        },
    }
}

} // verus!
