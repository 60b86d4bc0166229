//! The body of a message is coming in.
use vstd::prelude::*;
use crate::client_handler::states::idle::IdleState;
use crate::client_handler::{
    body_step, letters, outcome, recieve_mail, State, StateType, Step,
};
use crate::config::ServerConfig;
use crate::error::Error;
use crate::mail::Mail;
use crate::smtp::Response;
use crate::text::{clone_texts, texts};

verus! {

/// The state of a session that takes the body of a message.
#[derive(Debug, Clone)]
pub struct RecievingState {
    pub foreign_host: String,
    pub from: String,
    pub to: Vec<String>,
}

impl RecievingState {
    /// The state that the session is in.
    pub fn from(value: &State) -> (found: RecievingState)
        requires
            value.state_type is Recieving,
        ensures
            found.foreign_host@ == value.state_type->Recieving_0.foreign_host@,
            found.from@ == value.state_type->Recieving_0.from@,
            texts(found.to@) == texts(value.state_type->Recieving_0.to@),
    {
        match &value.state_type {
            StateType::Recieving(v) => RecievingState {
                foreign_host: v.foreign_host.clone(),
                from: v.from.clone(),
                to: clone_texts(&v.to),
            },
            _ => RecievingState {
                foreign_host: String::new(),
                from: String::new(),
                to: Vec::new(),
            },
        }
    }
}

/// Takes one step of a session that waits for a body. Once the body is all
/// there, the message is made, added to `messages` and handed on, and the
/// session is idle again. The reply says whether the message could be handed
/// on; what becomes of the deliveries is not the peer's concern.
pub fn handle_recieving(state: &mut State, messages: &mut Vec<Mail>, config: &ServerConfig) -> (r:
    Result<Step, Error>)
    requires
        old(state).state_type is Recieving,
    ensures
        final(state)@ == body_step(old(state)@, config@).0,
        outcome(r) == body_step(old(state)@, config@).1,
        letters(final(messages)@) == match body_step(old(state)@, config@).2 {
            Some(letter) => letters(old(messages)@).push(letter),
            None => letters(old(messages)@),
        },
{
    let recieving_state = RecievingState::from(state);
    let mail = match recieve_mail(
        &mut state.stream,
        recieving_state.from.as_str(),
        &recieving_state.to,
    ) {
        None => {
            return Ok(Step::Wait);
        },
        Some(mail) => mail,
    };
    let plan = mail.handle(config);
    messages.push(mail);
    state.state_type = StateType::Idle(IdleState { foreign_host: recieving_state.foreign_host });
    match plan {
        Ok(dispatches) => {
            let response = Response::new(250, 2, 6, 0, "Message Recieved Succesfully!!");
            state.stream.send_response(&response);
            Ok(Step::Deliver(dispatches))
        },
        Err(_) => {
            let response = Response::new(552, 5, 5, 0, "Woopsie");
            state.stream.send_response(&response);
            Ok(Step::Continue)
        },
    }
}

} // verus!
