//! The conversation with a user, as a machine: from the state of the
//! conversation and what the user sent to what is said in reply, what is
//! asked of the store, and the state that follows.
//!
//! Nothing here sends or stores anything. A step names the reply and the
//! request; whoever runs the conversation sends the one, performs the
//! other, and hands the result of the request to the step that continues
//! from it.

pub mod group;
pub mod state;
pub mod user;

use vstd::prelude::*;
use crate::datamodel::{Group, GroupId, GroupMembership, User, UserId};
use crate::error::DataError;
use crate::sequences::{lemma_filter_none, lemma_filter_step};
use crate::state_machine::state::State;

verus! {

/// What a user can ask for by name.
#[derive(Debug, Clone, Copy, PartialEq, Eq, Structural)]
pub enum Command {
    Help,
    Cancel,
    Register,
    CreateGroup,
    ModifyGroup,
    AddUser,
    AddExpense,
    ShowPending,
    Settle,
    ShowSummary,
    ShowStatement { months: u32 },
}

/// The answer that accepts what is shown.
pub const ACCEPT: &'static str = "Accept";

/// The answer that confirms what is shown.
pub const CONFIRM: &'static str = "Confirm";

/// The answer that asks to change what is shown.
pub const EDIT: &'static str = "Edit";

/// The answer that gives up what is shown.
pub const CANCEL: &'static str = "Cancel";

/// What is said to the user.
#[derive(Debug, PartialEq, Eq)]
pub enum Reply {
    /// The list of the commands.
    Help,
    /// The conversation is back at its start.
    ResetSuccessful,
    /// What was sent does not fit the state of the conversation.
    InvalidState,
    /// The command exists but does nothing yet.
    NotSupported,
    /// Asks for the name under which to register.
    EnterYourName,
    /// Asks again for a name: the message held no text.
    EnterAName,
    /// The sender has no username to register.
    UsernameNotFound,
    /// Shows what is about to be registered, to accept, edit or cancel.
    ConfirmUserDetails { name: String, username: String },
    ThanksForConfirming,
    Registered,
    RegistrationFailed,
    RegistrationCanceled,
    /// The answer was none of those offered.
    InvalidInput,
    /// The answer to a choice came without the choice.
    CallbackNotFound,
    /// Asks for the name of a new group.
    EnterGroupName,
    /// Asks for the name of the group once more, to change it.
    EnterTheGroupName,
    /// Asks for the description of the new group.
    EnterGroupDescription,
    /// Asks again for a description: the message held no text.
    EnterADescription,
    /// Shows the group that is about to be created, to confirm, edit or
    /// cancel.
    ConfirmGroupDetails { name: String, description: String },
    GroupCreated,
    GroupCreationFailed,
    GroupCreationCanceled,
    /// Asks in which group to work.
    SelectGroup,
    /// Offers the groups to choose from.
    SelectGroupFrom { groups: Vec<Group> },
    GroupNotInResponse,
    GroupNotInDatabase,
    /// Asks whom to add to the group.
    SelectUserToAdd,
}

/// What is asked of the store.
#[derive(Debug, PartialEq, Eq)]
pub enum Request {
    AddUser { user: User },
    AddGroup { group: Group },
    GetMembership { user_id: UserId },
    GetGroups { group_ids: Vec<GroupId> },
    GetGroup { group_id: GroupId },
}

/// One step of a conversation: what to say, what to ask of the store, and
/// the state to move to. Where `next` is empty the state stays.
#[derive(Debug, PartialEq, Eq)]
pub struct Step {
    pub reply: Option<Reply>,
    pub next: Option<State>,
    pub request: Option<Request>,
}

impl Step {
    /// The step that does nothing.
    pub open spec fn nothing() -> Step {
        Step { reply: None, next: None, request: None }
    }

    /// The step that only says something.
    pub open spec fn saying(reply: Reply) -> Step {
        Step { reply: Some(reply), next: None, request: None }
    }

    /// The step that says something and moves on.
    pub open spec fn saying_and_going(reply: Reply, next: State) -> Step {
        Step { reply: Some(reply), next: Some(next), request: None }
    }

    /// The step that says something and asks the store.
    pub open spec fn saying_and_asking(reply: Reply, request: Request) -> Step {
        Step { reply: Some(reply), next: None, request: Some(request) }
    }

    pub fn none() -> (step: Step)
        ensures
            step == Step::nothing(),
    {
        Step { reply: None, next: None, request: None }
    }

    pub fn say(reply: Reply) -> (step: Step)
        ensures
            step == Step::saying(reply),
    {
        Step { reply: Some(reply), next: None, request: None }
    }

    pub fn say_and_go(reply: Reply, next: State) -> (step: Step)
        ensures
            step == Step::saying_and_going(reply, next),
    {
        Step { reply: Some(reply), next: Some(next), request: None }
    }

    pub fn say_and_ask(reply: Reply, request: Request) -> (step: Step)
        ensures
            step == Step::saying_and_asking(reply, request),
    {
        Step { reply: Some(reply), next: None, request: Some(request) }
    }
}

/// Whether `text` reads exactly as `word`.
pub fn reads(text: &String, word: &str) -> (same: bool)
    ensures
        same == (text@ == word@),
{
    let word = String::from_str(word);
    *text == word
}

/// The commands are listed.
pub fn help() -> (step: Step)
    ensures
        step == Step::saying(Reply::Help),
{
    Step::say(Reply::Help)
}

/// Whatever was going on is dropped.
pub fn cancel() -> (step: Step)
    ensures
        step == Step::saying_and_going(Reply::ResetSuccessful, State::Start),
{
    Step::say_and_go(Reply::ResetSuccessful, State::Start)
}

/// What was sent fits nothing that is expected now.
pub fn invalid_state() -> (step: Step)
    ensures
        step == Step::saying(Reply::InvalidState),
{
    Step::say(Reply::InvalidState)
}

/// Registration begins with the question for a name.
pub fn register() -> (step: Step)
    ensures
        step == Step::saying_and_going(Reply::EnterYourName, State::RegisterUser),
{
    Step::say_and_go(Reply::EnterYourName, State::RegisterUser)
}

/// The creation of a group begins with the question for its name.
pub fn create_group() -> (step: Step)
    ensures
        step == Step::saying_and_going(Reply::EnterGroupName, State::CreateGroup),
{
    Step::say_and_go(Reply::EnterGroupName, State::CreateGroup)
}

/// A command that does nothing yet says so.
pub fn to_do_message() -> (step: Step)
    ensures
        step == Step::saying(Reply::NotSupported),
{
    Step::say(Reply::NotSupported)
}

/// Adding a user to a group begins with the groups of the one who asks.
pub fn add_user(chat_id: UserId) -> (step: Step)
    ensures
        step == Step::saying_and_asking(
            Reply::SelectGroup,
            Request::GetMembership { user_id: chat_id },
        ),
{
    Step::say_and_ask(Reply::SelectGroup, Request::GetMembership { user_id: chat_id })
}

/// The identities of the groups of `memberships`, in their order.
pub open spec fn group_ids_of(memberships: Seq<GroupMembership>) -> Seq<GroupId> {
    memberships.map_values(|membership: GroupMembership| membership.group_id)
}

/// Continues `add_user` with the memberships that the store returned: their
/// groups are fetched next. Where the store failed the question for a group
/// is all there is.
pub fn memberships_found(found: Result<Vec<GroupMembership>, DataError>) -> (step: Step)
    ensures
        match found {
            Ok(memberships) => step.reply is None && step.next is None && (
            step.request matches Some(Request::GetGroups { group_ids }) && group_ids@ == group_ids_of(
                memberships@,
            )),
            Err(_) => step == Step::saying(Reply::SelectGroup),
        },
{
    match found {
        Err(_) => Step::say(Reply::SelectGroup),
        Ok(memberships) => {
            let mut group_ids: Vec<GroupId> = Vec::new();
            let mut i: usize = 0;
            while i < memberships.len()
                invariant
                    i <= memberships.len(),
                    group_ids@ == group_ids_of(memberships@).take(i as int),
                decreases memberships.len() - i,
            {
                group_ids.push(memberships[i].group_id);
                assert(group_ids_of(memberships@).take(i + 1) =~= group_ids_of(memberships@).take(
                    i as int,
                ).push(memberships@[i as int].group_id));
                i = i + 1;
            }
            assert(group_ids_of(memberships@).take(memberships.len() as int) =~= group_ids_of(
                memberships@,
            ));
            Step { reply: None, next: None, request: Some(Request::GetGroups { group_ids }) }
        },
    }
}

/// The test for a lookup that found its group.
pub open spec fn was_found() -> spec_fn(Result<Group, DataError>) -> bool {
    |found: Result<Group, DataError>| found is Ok
}

/// The groups that the lookups found, in their order; a lookup that failed
/// is passed over.
pub open spec fn groups_found(found: Seq<Result<Group, DataError>>) -> Seq<Group> {
    found.filter(was_found()).map_values(|found: Result<Group, DataError>| found->Ok_0)
}

/// Continues `add_user` with what the lookups of the groups returned: the
/// groups that were found are offered, and the choice among them is awaited.
pub fn groups_fetched(found: Vec<Result<Group, DataError>>) -> (step: Step)
    ensures
        step.request is None,
        step.next == Some(State::RecieveGroupToAddUser),
        step.reply matches Some(Reply::SelectGroupFrom { groups }) && groups@ == groups_found(found@),
{
    let mut groups: Vec<Group> = Vec::new();
    let mut i: usize = 0;
    proof {
        lemma_filter_none(found@.take(0), was_found());
        assert(groups@ =~= groups_found(found@.take(0)));
    }
    while i < found.len()
        invariant
            i <= found.len(),
            groups@ == groups_found(found@.take(i as int)),
        decreases found.len() - i,
    {
        proof {
            lemma_filter_step(found@, was_found(), i as int);
        }
        let ghost before = groups@;
        match &found[i] {
            Ok(group) => {
                groups.push(group.clone());
                proof {
                    let kept = found@.take(i as int).filter(was_found());
                    assert(groups_found(found@.take(i + 1)) =~= groups_found(found@.take(i as int)).push(
                        found@[i as int]->Ok_0,
                    ));
                }
            },
            Err(_) => {},
        }
        i = i + 1;
    }
    assert(found@.take(found.len() as int) =~= found@);
    Step {
        reply: Some(Reply::SelectGroupFrom { groups }),
        next: Some(State::RecieveGroupToAddUser),
        request: None,
    }
}

/// The step that a command leads to, if the command is one that is handled
/// where the conversation stands: `Cancel` anywhere, `Help` anywhere, the
/// others only at the start.
pub open spec fn command_step(state: State, command: Command, chat_id: UserId) -> Option<Step> {
    if command is Cancel {
        Some(Step::saying_and_going(Reply::ResetSuccessful, State::Start))
    } else if command is Help {
        Some(Step::saying(Reply::Help))
    } else if state is Start {
        Some(
            match command {
                Command::Register => Step::saying_and_going(Reply::EnterYourName, State::RegisterUser),
                Command::CreateGroup => Step::saying_and_going(
                    Reply::EnterGroupName,
                    State::CreateGroup,
                ),
                Command::AddUser => Step::saying_and_asking(
                    Reply::SelectGroup,
                    Request::GetMembership { user_id: chat_id },
                ),
                _ => Step::saying(Reply::NotSupported),
            },
        )
    } else {
        None
    }
}

/// What a command leads to where the conversation stands, or nothing where
/// the command is not handled there: what was sent is then a message like
/// any other.
pub fn on_command(state: &State, command: Command, chat_id: UserId) -> (step: Option<Step>)
    ensures
        step == command_step(*state, command, chat_id),
{
    match command {
        Command::Cancel => Some(cancel()),
        Command::Help => Some(help()),
        _ => {
            match state {
                State::Start => {
                    let step = match command {
                        Command::Register => register(),
                        Command::CreateGroup => create_group(),
                        Command::AddUser => add_user(chat_id),
                        _ => to_do_message(),
                    };
                    Some(step)
                },
                _ => None,
            }
        },
    }
}

/// What a message leads to that is no command, or a command that is not
/// handled where the conversation stands.
pub fn on_message(state: State, text: Option<String>, username: Option<String>, chat_id: UserId) -> (step:
    Step)
    ensures
        match state {
            State::RegisterUser => step == user::registration_step(text, username),
            State::CreateGroup => group::is_group_named(step, text, chat_id),
            State::RecieveGroupDescription { group } => step == group::description_step(group, text),
            _ => step == Step::saying(Reply::InvalidState),
        },
{
    match state {
        State::RegisterUser => user::register_name(text, username),
        State::CreateGroup => group::create_group(text, chat_id),
        State::RecieveGroupDescription { group } => group::recieve_group_description(group, text),
        _ => invalid_state(),
    }
}

/// What the answer to a choice leads to.
pub fn on_callback(state: State, data: Option<String>, chat_id: UserId) -> (step: Step)
    ensures
        match state {
            State::ConfirmUser { data: user_data } => step == user::confirmation_step(
                user_data,
                data,
                chat_id,
            ),
            State::ConfirmGroup { group } => step == group::confirmation_step(group, data),
            State::RecieveGroupToAddUser => step == group::choice_step(data),
            _ => step == Step::saying(Reply::InvalidState),
        },
{
    match state {
        State::ConfirmUser { data: user_data } => user::confirm_user(user_data, data, chat_id),
        State::ConfirmGroup { group } => group::confirm_group(group, data),
        State::RecieveGroupToAddUser => group::recieve_group_user_add(data),
        _ => invalid_state(),
    }
}

/// Cancelling leads back to the start from every state.
pub proof fn lemma_cancel_resets(state: State, chat_id: UserId)
    ensures
        command_step(state, Command::Cancel, chat_id) matches Some(step) && step.next == Some(
            State::Start,
        ) && step.request is None,
{
}

/// No command makes the store write anything: a command asks the store at
/// most for the memberships of the one who sent it.
pub proof fn lemma_commands_do_not_write(state: State, command: Command, chat_id: UserId)
    ensures
        command_step(state, command, chat_id) matches Some(step) ==> (step.request matches Some(
            request,
        ) ==> request == (Request::GetMembership { user_id: chat_id })),
{
}

} // verus!
