//! Where a conversation stands.

use vstd::prelude::*;
use crate::datamodel::Group;

verus! {

/// What a user has said of themselves while registering.
#[derive(Debug, PartialEq, Eq)]
pub struct UserData {
    pub username: String,
    pub name: String,
}

impl Clone for UserData {
    fn clone(&self) -> (copy: UserData)
        ensures
            copy == *self,
    {
        UserData { username: self.username.clone(), name: self.name.clone() }
    }
}

impl Default for UserData {
    fn default() -> (data: UserData)
        ensures
            data.username@ == Seq::<char>::empty(),
            data.name@ == Seq::<char>::empty(),
    {
        UserData { username: String::new(), name: String::new() }
    }
}

/// The state of the conversation with one user. A conversation begins at
/// `Start` and comes back to it when a task is done or cancelled.
#[derive(Debug, PartialEq, Eq)]
pub enum State {
    Start,
    Cancel,
    RegisterUser,
    ConfirmUser { data: UserData },
    CreateGroup,
    RecieveGroupDescription { group: Group },
    ConfirmGroup { group: Group },
    RecieveGroupName,
    RecieveGroupToAddUser,
    RecieveUserToAdd { group: Group },
    ModifyGroup,
    RecieveGroupNameToModify,
    RecieveModifyGroupAction,
    RecieveModifyGroupUserToAdd,
    RecieveUserToRemove,
    RecieveNewDescription,
    AddExpense,
    RecieveAddExpenseType,
    RecieveAddExpenseUser,
    RecieveAddExpenseGroup,
    RecieveAddExpenseAmountEqualSplit,
    RecieveAddExpenseAmountCustomSplit,
}

impl Clone for State {
    fn clone(&self) -> (copy: State)
        ensures
            copy == *self,
    {
        match self {
            State::Start => State::Start,
            State::Cancel => State::Cancel,
            State::RegisterUser => State::RegisterUser,
            State::ConfirmUser { data } => State::ConfirmUser { data: data.clone() },
            State::CreateGroup => State::CreateGroup,
            State::RecieveGroupDescription { group } => State::RecieveGroupDescription {
                group: group.clone(),
            },
            State::ConfirmGroup { group } => State::ConfirmGroup { group: group.clone() },
            State::RecieveGroupName => State::RecieveGroupName,
            State::RecieveGroupToAddUser => State::RecieveGroupToAddUser,
            State::RecieveUserToAdd { group } => State::RecieveUserToAdd { group: group.clone() },
            State::ModifyGroup => State::ModifyGroup,
            State::RecieveGroupNameToModify => State::RecieveGroupNameToModify,
            State::RecieveModifyGroupAction => State::RecieveModifyGroupAction,
            State::RecieveModifyGroupUserToAdd => State::RecieveModifyGroupUserToAdd,
            State::RecieveUserToRemove => State::RecieveUserToRemove,
            State::RecieveNewDescription => State::RecieveNewDescription,
            State::AddExpense => State::AddExpense,
            State::RecieveAddExpenseType => State::RecieveAddExpenseType,
            State::RecieveAddExpenseUser => State::RecieveAddExpenseUser,
            State::RecieveAddExpenseGroup => State::RecieveAddExpenseGroup,
            State::RecieveAddExpenseAmountEqualSplit => State::RecieveAddExpenseAmountEqualSplit,
            State::RecieveAddExpenseAmountCustomSplit => State::RecieveAddExpenseAmountCustomSplit,
        }
    }
}

impl Default for State {
    fn default() -> (state: State)
        ensures
            state == State::Start,
    {
        State::Start
    }
}

} // verus!
