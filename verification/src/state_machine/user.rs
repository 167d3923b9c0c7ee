//! Registering a user: the name is asked for, shown for confirmation, and
//! stored once it is accepted.

use vstd::prelude::*;
use crate::datamodel::{User, UserId};
use crate::error::DataError;
use crate::state_machine::state::{State, UserData};
use crate::state_machine::{reads, Reply, Request, Step, ACCEPT, CANCEL, EDIT};

verus! {

/// What the message that should hold the name leads to: without text, or
/// from a sender without a username, the question is put again; with both
/// they are shown for confirmation.
pub open spec fn registration_step(text: Option<String>, username: Option<String>) -> Step {
    match (text, username) {
        (None, _) => Step::saying(Reply::EnterAName),
        (Some(_), None) => Step::saying(Reply::UsernameNotFound),
        (Some(name), Some(username)) => Step::saying_and_going(
            Reply::ConfirmUserDetails { name, username },
            State::ConfirmUser { data: UserData { username, name } },
        ),
    }
}

/// Takes the name that a user registers under.
pub fn register_name(text: Option<String>, username: Option<String>) -> (step: Step)
    ensures
        step == registration_step(text, username),
{
    let name = match text {
        Some(name) => name,
        None => {
            return Step::say(Reply::EnterAName);
        },
    };
    let user_name = match username {
        Some(user_name) => user_name,
        None => {
            return Step::say(Reply::UsernameNotFound);
        },
    };
    Step::say_and_go(
        Reply::ConfirmUserDetails { name: name.clone(), username: user_name.clone() },
        State::ConfirmUser { data: UserData { username: user_name, name } },
    )
}

/// The user that is stored when `data` is accepted in the chat `chat_id`.
pub open spec fn user_of(data: UserData, chat_id: UserId) -> User {
    User { user_id: chat_id, name: data.name, username: data.username }
}

/// What the answer to the confirmation leads to: `ACCEPT` has the user
/// stored, `EDIT` asks for the name again, `CANCEL` ends the registration,
/// and anything else is refused and the name asked for again. An answer
/// without a choice changes nothing.
pub open spec fn confirmation_step(data: UserData, option: Option<String>, chat_id: UserId) -> Step {
    match option {
        None => Step::saying(Reply::CallbackNotFound),
        Some(option) => if option@ == EDIT@ {
            Step::saying_and_going(Reply::EnterYourName, State::RegisterUser)
        } else if option@ == ACCEPT@ {
            Step::saying_and_asking(
                Reply::ThanksForConfirming,
                Request::AddUser { user: user_of(data, chat_id) },
            )
        } else if option@ == CANCEL@ {
            Step::saying_and_going(Reply::RegistrationCanceled, State::Start)
        } else {
            Step::saying_and_going(Reply::InvalidInput, State::RegisterUser)
        },
    }
}

/// Takes the answer to the confirmation of a registration.
pub fn confirm_user(data: UserData, option: Option<String>, chat_id: UserId) -> (step: Step)
    ensures
        step == confirmation_step(data, option, chat_id),
{
    match option {
        None => Step::say(Reply::CallbackNotFound),
        Some(option) => {
            if reads(&option, EDIT) {
                Step::say_and_go(Reply::EnterYourName, State::RegisterUser)
            } else if reads(&option, ACCEPT) {
                let user = User { user_id: chat_id, name: data.name, username: data.username };
                Step::say_and_ask(Reply::ThanksForConfirming, Request::AddUser { user })
            } else if reads(&option, CANCEL) {
                Step::say_and_go(Reply::RegistrationCanceled, State::Start)
            } else {
                Step::say_and_go(Reply::InvalidInput, State::RegisterUser)
            }
        },
    }
}

/// Continues `confirm_user` with what the store made of the new user: a
/// user that was stored is told so and the conversation is over; otherwise
/// the failure is reported and the confirmation still stands.
pub fn user_registered(stored: Result<(), DataError>) -> (step: Step)
    ensures
        step == match stored {
            Ok(()) => Step::saying_and_going(Reply::Registered, State::Start),
            Err(_) => Step::saying(Reply::RegistrationFailed),
        },
{
    match stored {
        Ok(()) => Step::say_and_go(Reply::Registered, State::Start),
        Err(_) => Step::say(Reply::RegistrationFailed),
    }
}

/// A user is stored only when the confirmation was accepted, and then it is
/// the user that was confirmed.
pub proof fn lemma_user_stored_only_on_accept(data: UserData, option: Option<String>, chat_id: UserId)
    ensures
        confirmation_step(data, option, chat_id).request is Some <==> (option matches Some(word)
            && word@ == ACCEPT@),
        confirmation_step(data, option, chat_id).request matches Some(request) ==> request == (
        Request::AddUser { user: user_of(data, chat_id) }),
{
    reveal_strlit("Edit");
    reveal_strlit("Accept");
    assert(EDIT@.len() == 4 && ACCEPT@.len() == 6);
}

} // verus!
