//! The tables of a store as plain mathematical values, and what each
//! operation of the storage engine makes of them.
//!
//! Every operation is a function from the tables before it to the tables
//! after it, or to the failure it reports. An operation that fails leaves
//! the tables as they were, so an operation that writes several rows writes
//! all of them or none.

use vstd::prelude::*;
use crate::datamodel::{
    ExpenseView, GroupId, GroupMembershipView, GroupView, UserExpensesView, UserView,
};
use crate::error::DataError;
use crate::migrations::{increasing, max_version, records_or_none, MigrationData, SCHEMA_VERSION};
use crate::split::split_of;

verus! {

/// The test for the user with the identity `user_id`.
pub open spec fn user_is(user_id: Seq<char>) -> spec_fn(UserView) -> bool {
    |user: UserView| user.user_id == user_id
}

/// The test for every user but the one with the identity `user_id`.
pub open spec fn user_is_not(user_id: Seq<char>) -> spec_fn(UserView) -> bool {
    |user: UserView| user.user_id != user_id
}

/// The test for the group with the identity `group_id`.
pub open spec fn group_is(group_id: GroupId) -> spec_fn(GroupView) -> bool {
    |group: GroupView| group.group_id == group_id
}

/// The test for every group but the one with the identity `group_id`.
pub open spec fn group_is_not(group_id: GroupId) -> spec_fn(GroupView) -> bool {
    |group: GroupView| group.group_id != group_id
}

/// The test for the memberships of the user `user_id`.
pub open spec fn membership_of(user_id: Seq<char>) -> spec_fn(GroupMembershipView) -> bool {
    |membership: GroupMembershipView| membership.user_id == user_id
}

/// The test for the memberships of everyone but the user `user_id`.
pub open spec fn membership_not_of(user_id: Seq<char>) -> spec_fn(GroupMembershipView) -> bool {
    |membership: GroupMembershipView| membership.user_id != user_id
}

/// The test for the memberships in every group but `group_id`.
pub open spec fn membership_not_in(group_id: GroupId) -> spec_fn(GroupMembershipView) -> bool {
    |membership: GroupMembershipView| membership.group_id != group_id
}

/// The test for every membership but that of `user_id` in `group_id`.
pub open spec fn membership_is_not(user_id: Seq<char>, group_id: GroupId) -> spec_fn(
    GroupMembershipView,
) -> bool {
    |membership: GroupMembershipView|
        !(membership.user_id == user_id && membership.group_id == group_id)
}

/// The test for the expenses recorded against the group `group_id`.
pub open spec fn expense_in(group_id: GroupId) -> spec_fn(ExpenseView) -> bool {
    |expense: ExpenseView| expense.group == group_id
}

/// The test for every expense but the one with the identity `expense_id`.
pub open spec fn expense_is_not(expense_id: u32) -> spec_fn(ExpenseView) -> bool {
    |expense: ExpenseView| expense.id != Some(expense_id)
}

/// The test for the shares of the expense `expense_id`.
pub open spec fn share_of(expense_id: u32) -> spec_fn(UserExpensesView) -> bool {
    |share: UserExpensesView| share.expenses_id == expense_id
}

/// The test for the shares of every expense but `expense_id`.
pub open spec fn share_not_of(expense_id: u32) -> spec_fn(UserExpensesView) -> bool {
    |share: UserExpensesView| share.expenses_id != expense_id
}

/// Some user of `users` has the identity `user_id`.
pub open spec fn has_user(users: Seq<UserView>, user_id: Seq<char>) -> bool {
    exists|i: int| 0 <= i < users.len() && (#[trigger] users[i]).user_id == user_id
}

/// Some group of `groups` has the identity `group_id`.
pub open spec fn has_group(groups: Seq<GroupView>, group_id: GroupId) -> bool {
    exists|i: int| 0 <= i < groups.len() && (#[trigger] groups[i]).group_id == group_id
}

/// Some expense of `expenses` has the identity `expense_id`.
pub open spec fn has_expense(expenses: Seq<ExpenseView>, expense_id: u32) -> bool {
    exists|i: int| 0 <= i < expenses.len() && (#[trigger] expenses[i]).id == Some(expense_id)
}

/// Some membership of `memberships` joins `user_id` to `group_id`.
pub open spec fn is_member(
    memberships: Seq<GroupMembershipView>,
    user_id: Seq<char>,
    group_id: GroupId,
) -> bool {
    exists|i: int|
        0 <= i < memberships.len() && (#[trigger] memberships[i]).user_id == user_id
            && memberships[i].group_id == group_id
}

/// The user of `users` with the identity `user_id`, where there is one.
pub open spec fn user_with(users: Seq<UserView>, user_id: Seq<char>) -> UserView {
    users.filter(user_is(user_id)).first()
}

/// The users that `memberships` joins to `group_id`, in the order in which
/// they joined.
///
/// A membership adds its user to the list where it is in the group, is the
/// first that joins this user to the group, and names a user of `users`.
/// So the one who joined first comes first, everyone is listed once however
/// often the membership was recorded, and a membership of someone who is
/// not a user lists nobody.
pub open spec fn joined(
    users: Seq<UserView>,
    memberships: Seq<GroupMembershipView>,
    group_id: GroupId,
) -> Seq<UserView>
    decreases memberships.len(),
{
    if memberships.len() == 0 {
        Seq::empty()
    } else {
        let earlier = memberships.drop_last();
        let last = memberships.last();
        if last.group_id == group_id && !is_member(earlier, last.user_id, group_id) && has_user(
            users,
            last.user_id,
        ) {
            joined(users, earlier, group_id).push(user_with(users, last.user_id))
        } else {
            joined(users, earlier, group_id)
        }
    }
}

/// The sum of the amounts of a list of shares.
pub open spec fn total_owed(shares: Seq<UserExpensesView>) -> int
    decreases shares.len(),
{
    if shares.len() == 0 {
        0
    } else {
        total_owed(shares.drop_last()) + shares.last().split
    }
}

/// The share rows that record `split` for the expense `expense_id`.
pub open spec fn shares_for(expense_id: u32, split: Seq<(Seq<char>, u32)>) -> Seq<
    UserExpensesView,
> {
    split.map_values(
        |share: (Seq<char>, u32)|
            UserExpensesView { user_id: share.0, expenses_id: expense_id, split: share.1 },
    )
}

/// The tables of a store.
///
/// `last_group_id` and `last_expense_id` are the identities most recently
/// assigned, 0 before the first; identities are never assigned twice.
/// `migrations` is the metadata table, absent in a fresh store.
#[verifier::ext_equal]
pub struct Tables {
    pub users: Seq<UserView>,
    pub groups: Seq<GroupView>,
    pub memberships: Seq<GroupMembershipView>,
    pub expenses: Seq<ExpenseView>,
    pub shares: Seq<UserExpensesView>,
    pub last_group_id: u32,
    pub last_expense_id: u32,
    pub migrations: Option<Seq<MigrationData>>,
}

impl Tables {
    /// A fresh store: no rows, no metadata table.
    pub open spec fn fresh() -> Tables {
        Tables {
            users: Seq::empty(),
            groups: Seq::empty(),
            memberships: Seq::empty(),
            expenses: Seq::empty(),
            shares: Seq::empty(),
            last_group_id: 0,
            last_expense_id: 0,
            migrations: None,
        }
    }

    /// The schema is in place: the store has been migrated to exactly the
    /// version this engine works with.
    pub open spec fn ready(self) -> bool {
        self.migrations matches Some(records) && max_version(records) == SCHEMA_VERSION
    }

    /// No two users share an identity.
    pub open spec fn users_unique(self) -> bool {
        forall|i: int, j: int|
            0 <= i < j < self.users.len() ==> (#[trigger] self.users[i]).user_id != (
            #[trigger] self.users[j]).user_id
    }

    /// No two groups share an identity, and every identity was assigned.
    pub open spec fn groups_unique(self) -> bool {
        &&& forall|i: int, j: int|
            0 <= i < j < self.groups.len() ==> (#[trigger] self.groups[i]).group_id != (
            #[trigger] self.groups[j]).group_id
        &&& forall|i: int|
            0 <= i < self.groups.len() ==> 1 <= (#[trigger] self.groups[i]).group_id
                <= self.last_group_id
    }

    /// Every membership is in a group that exists.
    pub open spec fn memberships_refer(self) -> bool {
        forall|i: int|
            0 <= i < self.memberships.len() ==> has_group(
                self.groups,
                (#[trigger] self.memberships[i]).group_id,
            )
    }

    /// Every expense has an identity that was assigned, and no two share one.
    pub open spec fn expenses_unique(self) -> bool {
        &&& forall|i: int, j: int|
            0 <= i < j < self.expenses.len() ==> (#[trigger] self.expenses[i]).id != (
            #[trigger] self.expenses[j]).id
        &&& forall|i: int|
            0 <= i < self.expenses.len() ==> ((#[trigger] self.expenses[i]).id matches Some(id)
                && 1 <= id <= self.last_expense_id)
    }

    /// Every share belongs to an expense that exists.
    pub open spec fn shares_refer(self) -> bool {
        forall|i: int|
            0 <= i < self.shares.len() ==> has_expense(
                self.expenses,
                (#[trigger] self.shares[i]).expenses_id,
            )
    }

    /// The shares of every expense add up to its amount.
    pub open spec fn shares_exact(self) -> bool {
        forall|i: int|
            0 <= i < self.expenses.len() ==> total_owed(
                self.shares.filter(share_of((#[trigger] self.expenses[i]).id.unwrap())),
            ) == self.expenses[i].amount
    }

    /// The rules that hold of the tables between any two operations.
    pub open spec fn wf(self) -> bool {
        &&& self.users_unique()
        &&& self.groups_unique()
        &&& self.memberships_refer()
        &&& self.expenses_unique()
        &&& self.shares_refer()
        &&& self.shares_exact()
        &&& increasing(records_or_none(self.migrations))
    }

    /// The users joined to the group, in the order in which they joined:
    /// the creator of the group first. A user is listed once, however often
    /// the membership was recorded; a membership of someone who is not a
    /// user lists nobody.
    pub open spec fn members(self, group_id: GroupId) -> Seq<UserView> {
        joined(self.users, self.memberships, group_id)
    }

    /// Stores a new user. A second user with the same identity is a
    /// conflict.
    pub open spec fn add_user(self, user: UserView) -> Result<Tables, DataError> {
        if !self.ready() {
            Err(DataError::IoOrEngineFailure)
        } else if has_user(self.users, user.user_id) {
            Err(DataError::Conflict)
        } else {
            Ok(Tables { users: self.users.push(user), ..self })
        }
    }

    /// Stores a new group under the next identity and joins its creator to
    /// it. The identity that `group` carries is ignored. Fails only when the
    /// identities are used up.
    pub open spec fn add_group(self, group: GroupView) -> Result<Tables, DataError> {
        if !self.ready() || self.last_group_id == u32::MAX {
            Err(DataError::IoOrEngineFailure)
        } else {
            let group_id = (self.last_group_id + 1) as u32;
            Ok(
                Tables {
                    groups: self.groups.push(GroupView { group_id, ..group }),
                    memberships: self.memberships.push(
                        GroupMembershipView { user_id: group.created_by, group_id },
                    ),
                    last_group_id: group_id,
                    ..self
                },
            )
        }
    }

    /// Joins a user to a group that exists.
    pub open spec fn add_user_to_group(self, group_id: GroupId, user_id: Seq<char>) -> Result<
        Tables,
        DataError,
    > {
        if !self.ready() {
            Err(DataError::IoOrEngineFailure)
        } else if !has_group(self.groups, group_id) {
            Err(DataError::NotFound)
        } else {
            Ok(
                Tables {
                    memberships: self.memberships.push(GroupMembershipView { user_id, group_id }),
                    ..self
                },
            )
        }
    }

    /// Stores a new expense under the next identity, together with one share
    /// for each member of its group. The identity that `expense` carries is
    /// ignored. The group must exist, and the split must be one that the
    /// calculator supports.
    pub open spec fn add_expense(self, expense: ExpenseView) -> Result<Tables, DataError> {
        if !self.ready() {
            Err(DataError::IoOrEngineFailure)
        } else if !has_group(self.groups, expense.group) {
            Err(DataError::NotFound)
        } else {
            match split_of(expense.amount, expense.split_type, self.members(expense.group)) {
                Err(e) => Err(e),
                Ok(split) => {
                    if self.last_expense_id == u32::MAX {
                        Err(DataError::IoOrEngineFailure)
                    } else {
                        let id = (self.last_expense_id + 1) as u32;
                        Ok(
                            Tables {
                                expenses: self.expenses.push(ExpenseView { id: Some(id), ..expense }),
                                shares: self.shares + shares_for(id, split),
                                last_expense_id: id,
                                ..self
                            },
                        )
                    }
                },
            }
        }
    }

    /// The user with the identity `user_id`.
    pub open spec fn get_user(self, user_id: Seq<char>) -> Result<UserView, DataError> {
        if !self.ready() {
            Err(DataError::IoOrEngineFailure)
        } else if !has_user(self.users, user_id) {
            Err(DataError::NotFound)
        } else {
            Ok(user_with(self.users, user_id))
        }
    }

    /// The group with the identity `group_id`.
    pub open spec fn get_group(self, group_id: GroupId) -> Result<GroupView, DataError> {
        if !self.ready() {
            Err(DataError::IoOrEngineFailure)
        } else if !has_group(self.groups, group_id) {
            Err(DataError::NotFound)
        } else {
            Ok(self.groups.filter(group_is(group_id)).first())
        }
    }

    /// The users joined to the group, the one who joined first at the
    /// front; none where the group has no members or does not exist.
    pub open spec fn get_group_members(self, group_id: GroupId) -> Result<Seq<UserView>, DataError> {
        if !self.ready() {
            Err(DataError::IoOrEngineFailure)
        } else {
            Ok(self.members(group_id))
        }
    }

    /// The expenses recorded against the group, oldest first.
    pub open spec fn get_expenses(self, group_id: GroupId) -> Result<Seq<ExpenseView>, DataError> {
        if !self.ready() {
            Err(DataError::IoOrEngineFailure)
        } else {
            Ok(self.expenses.filter(expense_in(group_id)))
        }
    }

    /// The memberships of the user, oldest first.
    pub open spec fn get_membership(self, user_id: Seq<char>) -> Result<
        Seq<GroupMembershipView>,
        DataError,
    > {
        if !self.ready() {
            Err(DataError::IoOrEngineFailure)
        } else {
            Ok(self.memberships.filter(membership_of(user_id)))
        }
    }

    /// The shares of the expense, in the order of the members they were
    /// computed for.
    pub open spec fn get_shares(self, expense_id: u32) -> Result<Seq<UserExpensesView>, DataError> {
        if !self.ready() {
            Err(DataError::IoOrEngineFailure)
        } else {
            Ok(self.shares.filter(share_of(expense_id)))
        }
    }

    /// Removes every membership of the user in the group, and nothing else.
    pub open spec fn remove_user_from_group(self, group_id: GroupId, user_id: Seq<char>) -> Result<
        Tables,
        DataError,
    > {
        if !self.ready() {
            Err(DataError::IoOrEngineFailure)
        } else {
            Ok(
                Tables {
                    memberships: self.memberships.filter(membership_is_not(user_id, group_id)),
                    ..self
                },
            )
        }
    }

    /// Removes the group and every membership in it, and nothing else.
    pub open spec fn delete_group(self, group_id: GroupId) -> Result<Tables, DataError> {
        if !self.ready() {
            Err(DataError::IoOrEngineFailure)
        } else {
            Ok(
                Tables {
                    groups: self.groups.filter(group_is_not(group_id)),
                    memberships: self.memberships.filter(membership_not_in(group_id)),
                    ..self
                },
            )
        }
    }

    /// Removes the user and every membership of theirs, and nothing else.
    pub open spec fn delete_user(self, user_id: Seq<char>) -> Result<Tables, DataError> {
        if !self.ready() {
            Err(DataError::IoOrEngineFailure)
        } else {
            Ok(
                Tables {
                    users: self.users.filter(user_is_not(user_id)),
                    memberships: self.memberships.filter(membership_not_of(user_id)),
                    ..self
                },
            )
        }
    }

    /// Removes the expense and its shares, and nothing else.
    pub open spec fn delete_expense(self, expense_id: u32) -> Result<Tables, DataError> {
        if !self.ready() {
            Err(DataError::IoOrEngineFailure)
        } else {
            Ok(
                Tables {
                    expenses: self.expenses.filter(expense_is_not(expense_id)),
                    shares: self.shares.filter(share_not_of(expense_id)),
                    ..self
                },
            )
        }
    }
}

/// An operation that writes, with what it is given.
pub enum Write {
    AddUser { user: UserView },
    AddGroup { group: GroupView },
    AddUserToGroup { group_id: GroupId, user_id: Seq<char> },
    AddExpense { expense: ExpenseView },
    RemoveUserFromGroup { group_id: GroupId, user_id: Seq<char> },
    DeleteGroup { group_id: GroupId },
    DeleteUser { user_id: Seq<char> },
    DeleteExpense { expense_id: u32 },
}

impl Tables {
    /// What the write makes of the tables.
    pub open spec fn apply(self, write: Write) -> Result<Tables, DataError> {
        match write {
            Write::AddUser { user } => self.add_user(user),
            Write::AddGroup { group } => self.add_group(group),
            Write::AddUserToGroup { group_id, user_id } => self.add_user_to_group(group_id, user_id),
            Write::AddExpense { expense } => self.add_expense(expense),
            Write::RemoveUserFromGroup { group_id, user_id } => self.remove_user_from_group(
                group_id,
                user_id,
            ),
            Write::DeleteGroup { group_id } => self.delete_group(group_id),
            Write::DeleteUser { user_id } => self.delete_user(user_id),
            Write::DeleteExpense { expense_id } => self.delete_expense(expense_id),
        }
    }

    /// The tables after the write was tried: those that it leaves where it
    /// succeeds, and the same as before where it fails.
    pub open spec fn after(self, write: Write) -> Tables {
        match self.apply(write) {
            Ok(after) => after,
            Err(_) => self,
        }
    }

    /// The tables after the writes were tried one after another.
    pub open spec fn after_all(self, writes: Seq<Write>) -> Tables
        decreases writes.len(),
    {
        if writes.len() == 0 {
            self
        } else {
            self.after(writes[0]).after_all(writes.skip(1))
        }
    }

    /// None of the writes, tried one after another, concerns the group at
    /// the time it is tried.
    pub open spec fn none_concerns(self, writes: Seq<Write>, group_id: GroupId) -> bool
        decreases writes.len(),
    {
        writes.len() == 0 || (!self.concerns(writes[0], group_id) && self.after(
            writes[0],
        ).none_concerns(writes.skip(1), group_id))
    }

    /// The write concerns the group: it names the group itself, or a user
    /// whom a membership joins to it.
    pub open spec fn concerns(self, write: Write, group_id: GroupId) -> bool {
        match write {
            Write::AddUser { user } => is_member(self.memberships, user.user_id, group_id),
            Write::AddGroup { group } => false,
            Write::AddUserToGroup { group_id: other, user_id } => other == group_id,
            Write::AddExpense { expense } => false,
            Write::RemoveUserFromGroup { group_id: other, user_id } => other == group_id,
            Write::DeleteGroup { group_id: other } => other == group_id,
            Write::DeleteUser { user_id } => is_member(self.memberships, user_id, group_id),
            Write::DeleteExpense { expense_id } => false,
        }
    }
}

} // verus!
