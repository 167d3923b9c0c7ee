//! The records the store keeps, and the view of each as plain mathematical
//! values.

use vstd::prelude::*;
use vstd::std_specs::convert::TryFromSpecImpl;
use crate::error::DataError;
use crate::tables::Tables;

verus! {

/// The stable external identity of a user.
pub type UserId = String;

/// The identity the engine assigns to a group.
pub type GroupId = u32;

/// The rule by which an expense is divided among the members of its group.
#[derive(Debug, Clone, Copy, PartialEq, Eq, Structural)]
pub enum SplitType {
    Equal,
    Percent,
    Amount,
}

/// The split rule that a stored code stands for, if it stands for one.
pub open spec fn split_type_of_code(code: u32) -> Result<SplitType, DataError> {
    if code == 0 {
        Ok(SplitType::Equal)
    } else if code == 1 {
        Ok(SplitType::Percent)
    } else if code == 2 {
        Ok(SplitType::Amount)
    } else {
        Err(DataError::InvalidInput)
    }
}

/// The code under which a split rule is stored.
pub open spec fn code_of_split_type(split_type: SplitType) -> u32 {
    match split_type {
        SplitType::Equal => 0,
        SplitType::Percent => 1,
        SplitType::Amount => 2,
    }
}

impl TryFrom<u32> for SplitType {
    type Error = DataError;

    fn try_from(value: u32) -> (split_type: Result<SplitType, DataError>) {
        match value {
            0 => Ok(SplitType::Equal),
            1 => Ok(SplitType::Percent),
            2 => Ok(SplitType::Amount),
            _ => Err(DataError::InvalidInput),
        }
    }
}

impl TryFromSpecImpl<u32> for SplitType {
    open spec fn obeys_try_from_spec() -> bool {
        true
    }

    open spec fn try_from_spec(value: u32) -> Result<SplitType, DataError> {
        split_type_of_code(value)
    }
}

impl SplitType {
    /// The code under which this rule is stored; it never fails.
    pub fn try_into(self) -> (code: Result<u32, DataError>)
        ensures
            code == Ok::<u32, DataError>(code_of_split_type(self)),
    {
        match self {
            SplitType::Equal => Ok(0),
            SplitType::Percent => Ok(1),
            SplitType::Amount => Ok(2),
        }
    }
}

/// Decoding the code of a split rule gives the rule back.
pub proof fn lemma_split_code_roundtrip(split_type: SplitType)
    ensures
        split_type_of_code(code_of_split_type(split_type)) == Ok::<SplitType, DataError>(split_type),
{
}

/// A registered user.
#[derive(Debug, PartialEq, Eq)]
pub struct User {
    pub user_id: UserId,
    pub name: String,
    pub username: String,
}

/// A user as plain values.
pub struct UserView {
    pub user_id: Seq<char>,
    pub name: Seq<char>,
    pub username: Seq<char>,
}

impl View for User {
    type V = UserView;

    open spec fn view(&self) -> UserView {
        UserView { user_id: self.user_id@, name: self.name@, username: self.username@ }
    }
}

impl Clone for User {
    fn clone(&self) -> (copy: User)
        ensures
            copy == *self,
    {
        User {
            user_id: self.user_id.clone(),
            name: self.name.clone(),
            username: self.username.clone(),
        }
    }
}

impl User {
    pub fn new(user_id: UserId, name: String, username: String) -> (user: User)
        ensures
            user.user_id == user_id,
            user.name == name,
            user.username == username,
    {
        User { user_id, name, username }
    }
}

/// A group of users who share expenses.
#[derive(Debug, PartialEq, Eq)]
pub struct Group {
    pub group_id: GroupId,
    pub name: String,
    pub description: String,
    pub created_by: UserId,
}

/// A group as plain values.
pub struct GroupView {
    pub group_id: GroupId,
    pub name: Seq<char>,
    pub description: Seq<char>,
    pub created_by: Seq<char>,
}

impl View for Group {
    type V = GroupView;

    open spec fn view(&self) -> GroupView {
        GroupView {
            group_id: self.group_id,
            name: self.name@,
            description: self.description@,
            created_by: self.created_by@,
        }
    }
}

impl Clone for Group {
    fn clone(&self) -> (copy: Group)
        ensures
            copy == *self,
    {
        Group {
            group_id: self.group_id,
            name: self.name.clone(),
            description: self.description.clone(),
            created_by: self.created_by.clone(),
        }
    }
}

impl Group {
    pub fn new(group_id: GroupId, name: String, description: String, created_by: UserId) -> (group:
        Group)
        ensures
            group.group_id == group_id,
            group.name == name,
            group.description == description,
            group.created_by == created_by,
    {
        Group { group_id, name, description, created_by }
    }
}

/// The fact that a user belongs to a group.
#[derive(Debug, PartialEq, Eq)]
pub struct GroupMembership {
    pub user_id: UserId,
    pub group_id: GroupId,
}

/// A membership as plain values.
pub struct GroupMembershipView {
    pub user_id: Seq<char>,
    pub group_id: GroupId,
}

impl View for GroupMembership {
    type V = GroupMembershipView;

    open spec fn view(&self) -> GroupMembershipView {
        GroupMembershipView { user_id: self.user_id@, group_id: self.group_id }
    }
}

impl Clone for GroupMembership {
    fn clone(&self) -> (copy: GroupMembership)
        ensures
            copy == *self,
    {
        GroupMembership { user_id: self.user_id.clone(), group_id: self.group_id }
    }
}

impl GroupMembership {
    pub fn new(user_id: UserId, group_id: GroupId) -> (membership: GroupMembership)
        ensures
            membership.user_id == user_id,
            membership.group_id == group_id,
    {
        GroupMembership { user_id, group_id }
    }
}

/// A cost that one member paid for the whole group. `id` is empty until the
/// engine has stored the expense; `amount` counts the smallest currency unit;
/// `split_type` is the stored code of a `SplitType`.
#[derive(Debug, PartialEq, Eq)]
pub struct Expense {
    pub id: Option<u32>,
    pub added_by: UserId,
    pub group: GroupId,
    pub amount: u32,
    pub title: String,
    pub description: String,
    pub split_type: u32,
}

/// An expense as plain values.
pub struct ExpenseView {
    pub id: Option<u32>,
    pub added_by: Seq<char>,
    pub group: GroupId,
    pub amount: u32,
    pub title: Seq<char>,
    pub description: Seq<char>,
    pub split_type: u32,
}

impl View for Expense {
    type V = ExpenseView;

    open spec fn view(&self) -> ExpenseView {
        ExpenseView {
            id: self.id,
            added_by: self.added_by@,
            group: self.group,
            amount: self.amount,
            title: self.title@,
            description: self.description@,
            split_type: self.split_type,
        }
    }
}

impl Clone for Expense {
    fn clone(&self) -> (copy: Expense)
        ensures
            copy == *self,
    {
        Expense {
            id: self.id,
            added_by: self.added_by.clone(),
            group: self.group,
            amount: self.amount,
            title: self.title.clone(),
            description: self.description.clone(),
            split_type: self.split_type,
        }
    }
}

impl Expense {
    /// An expense not yet stored, to be split equally.
    pub fn new(
        added_by: UserId,
        group: GroupId,
        amount: u32,
        title: String,
        description: String,
    ) -> (expense: Expense)
        ensures
            expense.id.is_none(),
            expense.added_by == added_by,
            expense.group == group,
            expense.amount == amount,
            expense.title == title,
            expense.description == description,
            expense.split_type == code_of_split_type(SplitType::Equal),
    {
        Expense {
            id: None,
            added_by,
            group,
            amount,
            title,
            description,
            split_type: SplitType::Equal.try_into().unwrap(),
        }
    }
}

/// The share of one expense that one user owes.
#[derive(Debug, PartialEq, Eq)]
pub struct UserExpenses {
    pub user_id: UserId,
    pub expenses_id: u32,
    pub split: u32,
}

/// A share as plain values.
pub struct UserExpensesView {
    pub user_id: Seq<char>,
    pub expenses_id: u32,
    pub split: u32,
}

impl View for UserExpenses {
    type V = UserExpensesView;

    open spec fn view(&self) -> UserExpensesView {
        UserExpensesView {
            user_id: self.user_id@,
            expenses_id: self.expenses_id,
            split: self.split,
        }
    }
}

impl Clone for UserExpenses {
    fn clone(&self) -> (copy: UserExpenses)
        ensures
            copy == *self,
    {
        UserExpenses {
            user_id: self.user_id.clone(),
            expenses_id: self.expenses_id,
            split: self.split,
        }
    }
}

/// The views of the records of a table, in the table's order.
pub open spec fn views<T: View>(records: Seq<T>) -> Seq<T::V> {
    records.map_values(|record: T| record@)
}

/// The operations of the storage engine.
///
/// Each operation is stated over the tables behind the engine: what it
/// returns and what it leaves is what the operation of the same name makes
/// of the tables. An operation that fails leaves the tables untouched.
pub trait Datamodel {
    /// The tables behind this engine, as plain values.
    spec fn tables(&self) -> Tables;

    fn add_user(&mut self, user: User) -> (added: Result<(), DataError>)
        requires
            old(self).tables().wf(),
        ensures
            final(self).tables().wf(),
            match added {
                Ok(()) => old(self).tables().add_user(user@) == Ok::<Tables, DataError>(
                    final(self).tables(),
                ),
                Err(e) => old(self).tables().add_user(user@) == Err::<Tables, DataError>(e)
                    && final(self).tables() == old(self).tables(),
            },
    ;

    fn add_group(&mut self, group: Group) -> (added: Result<(), DataError>)
        requires
            old(self).tables().wf(),
        ensures
            final(self).tables().wf(),
            match added {
                Ok(()) => old(self).tables().add_group(group@) == Ok::<Tables, DataError>(
                    final(self).tables(),
                ),
                Err(e) => old(self).tables().add_group(group@) == Err::<Tables, DataError>(e)
                    && final(self).tables() == old(self).tables(),
            },
    ;

    fn add_user_to_group(&mut self, group_id: GroupId, user_id: UserId) -> (added: Result<
        (),
        DataError,
    >)
        requires
            old(self).tables().wf(),
        ensures
            final(self).tables().wf(),
            match added {
                Ok(()) => old(self).tables().add_user_to_group(group_id, user_id@) == Ok::<
                    Tables,
                    DataError,
                >(final(self).tables()),
                Err(e) => old(self).tables().add_user_to_group(group_id, user_id@) == Err::<
                    Tables,
                    DataError,
                >(e) && final(self).tables() == old(self).tables(),
            },
    ;

    fn add_expense(&mut self, expense: Expense) -> (added: Result<(), DataError>)
        requires
            old(self).tables().wf(),
        ensures
            final(self).tables().wf(),
            match added {
                Ok(()) => old(self).tables().add_expense(expense@) == Ok::<Tables, DataError>(
                    final(self).tables(),
                ),
                Err(e) => old(self).tables().add_expense(expense@) == Err::<Tables, DataError>(e)
                    && final(self).tables() == old(self).tables(),
            },
    ;

    fn get_user(&self, user_id: UserId) -> (found: Result<User, DataError>)
        requires
            self.tables().wf(),
        ensures
            match found {
                Ok(user) => self.tables().get_user(user_id@) == Ok::<UserView, DataError>(user@),
                Err(e) => self.tables().get_user(user_id@) == Err::<UserView, DataError>(e),
            },
    ;

    fn get_group(&self, group_id: GroupId) -> (found: Result<Group, DataError>)
        requires
            self.tables().wf(),
        ensures
            match found {
                Ok(group) => self.tables().get_group(group_id) == Ok::<GroupView, DataError>(group@),
                Err(e) => self.tables().get_group(group_id) == Err::<GroupView, DataError>(e),
            },
    ;

    fn get_group_members(&self, group_id: GroupId) -> (found: Result<Vec<User>, DataError>)
        requires
            self.tables().wf(),
        ensures
            match found {
                Ok(users) => self.tables().get_group_members(group_id) == Ok::<
                    Seq<UserView>,
                    DataError,
                >(views(users@)),
                Err(e) => self.tables().get_group_members(group_id) == Err::<
                    Seq<UserView>,
                    DataError,
                >(e),
            },
    ;

    fn get_expenses(&self, group_id: GroupId) -> (found: Result<Vec<Expense>, DataError>)
        requires
            self.tables().wf(),
        ensures
            match found {
                Ok(expenses) => self.tables().get_expenses(group_id) == Ok::<
                    Seq<ExpenseView>,
                    DataError,
                >(views(expenses@)),
                Err(e) => self.tables().get_expenses(group_id) == Err::<Seq<ExpenseView>, DataError>(
                    e,
                ),
            },
    ;

    fn remove_user_from_group(&mut self, group_id: GroupId, user_id: UserId) -> (removed: Result<
        (),
        DataError,
    >)
        requires
            old(self).tables().wf(),
        ensures
            final(self).tables().wf(),
            match removed {
                Ok(()) => old(self).tables().remove_user_from_group(group_id, user_id@) == Ok::<
                    Tables,
                    DataError,
                >(final(self).tables()),
                Err(e) => old(self).tables().remove_user_from_group(group_id, user_id@) == Err::<
                    Tables,
                    DataError,
                >(e) && final(self).tables() == old(self).tables(),
            },
    ;

    fn delete_group(&mut self, group_id: GroupId) -> (deleted: Result<(), DataError>)
        requires
            old(self).tables().wf(),
        ensures
            final(self).tables().wf(),
            match deleted {
                Ok(()) => old(self).tables().delete_group(group_id) == Ok::<Tables, DataError>(
                    final(self).tables(),
                ),
                Err(e) => old(self).tables().delete_group(group_id) == Err::<Tables, DataError>(e)
                    && final(self).tables() == old(self).tables(),
            },
    ;

    fn delete_user(&mut self, user_id: UserId) -> (deleted: Result<(), DataError>)
        requires
            old(self).tables().wf(),
        ensures
            final(self).tables().wf(),
            match deleted {
                Ok(()) => old(self).tables().delete_user(user_id@) == Ok::<Tables, DataError>(
                    final(self).tables(),
                ),
                Err(e) => old(self).tables().delete_user(user_id@) == Err::<Tables, DataError>(e)
                    && final(self).tables() == old(self).tables(),
            },
    ;

    fn delete_expense(&mut self, expense_id: u32) -> (deleted: Result<(), DataError>)
        requires
            old(self).tables().wf(),
        ensures
            final(self).tables().wf(),
            match deleted {
                Ok(()) => old(self).tables().delete_expense(expense_id) == Ok::<Tables, DataError>(
                    final(self).tables(),
                ),
                Err(e) => old(self).tables().delete_expense(expense_id) == Err::<Tables, DataError>(
                    e,
                ) && final(self).tables() == old(self).tables(),
            },
    ;

    fn get_membership(&self, user_id: UserId) -> (found: Result<Vec<GroupMembership>, DataError>)
        requires
            self.tables().wf(),
        ensures
            match found {
                Ok(memberships) => self.tables().get_membership(user_id@) == Ok::<
                    Seq<GroupMembershipView>,
                    DataError,
                >(views(memberships@)),
                Err(e) => self.tables().get_membership(user_id@) == Err::<
                    Seq<GroupMembershipView>,
                    DataError,
                >(e),
            },
    ;
}

} // verus!
