//! The rules of the tables survive every operation of the engine.

use vstd::prelude::*;
use crate::datamodel::{ExpenseView, GroupId, GroupMembershipView, GroupView, UserExpensesView, UserView};
use crate::sequences::{
    all_pass, distinct_by, lemma_filter_agree, lemma_filter_all, lemma_filter_all_pass,
    lemma_filter_distinct, lemma_filter_members, lemma_filter_none, lemma_filter_twice,
};
use crate::split::{lemma_split_total, split_of, total_of};
use crate::tables::{
    expense_is_not, group_is_not, has_expense, has_group, membership_is_not, membership_not_in,
    membership_not_of, share_not_of, share_of, shares_for, total_owed, user_is_not, Tables, Write,
};

verus! {

/// The amounts of two lists of shares, one after the other, add up.
pub proof fn lemma_total_owed_add(first: Seq<UserExpensesView>, second: Seq<UserExpensesView>)
    ensures
        total_owed(first + second) == total_owed(first) + total_owed(second),
    decreases second.len(),
{
    if second.len() == 0 {
        assert(first + second =~= first);
    } else {
        lemma_total_owed_add(first, second.drop_last());
        assert((first + second).drop_last() =~= first + second.drop_last());
        assert((first + second).last() == second.last());
    }
}

/// The share rows of a split owe together what the split divides.
pub proof fn lemma_shares_for_total(expense_id: u32, split: Seq<(Seq<char>, u32)>)
    ensures
        shares_for(expense_id, split).len() == split.len(),
        total_owed(shares_for(expense_id, split)) == total_of(split),
    decreases split.len(),
{
    if split.len() > 0 {
        lemma_shares_for_total(expense_id, split.drop_last());
        assert(shares_for(expense_id, split).drop_last() =~= shares_for(
            expense_id,
            split.drop_last(),
        ));
    }
}

/// A fresh store keeps the rules.
pub proof fn lemma_fresh_wf()
    ensures
        Tables::fresh().wf(),
{
    reveal(Seq::filter);
}

/// Storing a user keeps the rules.
pub proof fn lemma_add_user_wf(tables: Tables, user: UserView)
    requires
        tables.wf(),
    ensures
        tables.add_user(user) matches Ok(after) ==> after.wf(),
{
    if let Ok(after) = tables.add_user(user) {
        assert forall|i: int, j: int| 0 <= i < j < after.users.len() implies (
        #[trigger] after.users[i]).user_id != (#[trigger] after.users[j]).user_id by {
            if j < tables.users.len() {
                assert(after.users[i] == tables.users[i] && after.users[j] == tables.users[j]);
            } else {
                assert(after.users[i] == tables.users[i]);
            }
        }
    }
}

/// A group that exists still exists when another is stored after it.
proof fn lemma_has_group_push(groups: Seq<GroupView>, group: GroupView, group_id: GroupId)
    ensures
        has_group(groups, group_id) ==> has_group(groups.push(group), group_id),
        has_group(groups.push(group), group.group_id),
{
    if has_group(groups, group_id) {
        let i = choose|i: int| 0 <= i < groups.len() && (#[trigger] groups[i]).group_id == group_id;
        assert(groups.push(group)[i].group_id == group_id);
    }
    assert(groups.push(group)[groups.len() as int].group_id == group.group_id);
}

/// Storing a group keeps the rules.
pub proof fn lemma_add_group_wf(tables: Tables, group: GroupView)
    requires
        tables.wf(),
    ensures
        tables.add_group(group) matches Ok(after) ==> after.wf(),
{
    if let Ok(after) = tables.add_group(group) {
        let group_id = after.last_group_id;
        let stored = GroupView { group_id, ..group };
        assert forall|i: int, j: int| 0 <= i < j < after.groups.len() implies (
        #[trigger] after.groups[i]).group_id != (#[trigger] after.groups[j]).group_id by {
            if j < tables.groups.len() {
                assert(after.groups[i] == tables.groups[i] && after.groups[j] == tables.groups[j]);
            } else {
                assert(after.groups[i] == tables.groups[i]);
            }
        }
        assert forall|i: int| 0 <= i < after.groups.len() implies 1 <= (
        #[trigger] after.groups[i]).group_id <= after.last_group_id by {
            if i < tables.groups.len() {
                assert(after.groups[i] == tables.groups[i]);
            }
        }
        assert forall|i: int| 0 <= i < after.memberships.len() implies has_group(
            after.groups,
            (#[trigger] after.memberships[i]).group_id,
        ) by {
            lemma_has_group_push(tables.groups, stored, after.memberships[i].group_id);
            if i < tables.memberships.len() {
                assert(after.memberships[i] == tables.memberships[i]);
            }
        }
    }
}

/// Joining a user to a group keeps the rules.
pub proof fn lemma_add_user_to_group_wf(tables: Tables, group_id: GroupId, user_id: Seq<char>)
    requires
        tables.wf(),
    ensures
        tables.add_user_to_group(group_id, user_id) matches Ok(after) ==> after.wf(),
{
    if let Ok(after) = tables.add_user_to_group(group_id, user_id) {
        assert forall|i: int| 0 <= i < after.memberships.len() implies has_group(
            after.groups,
            (#[trigger] after.memberships[i]).group_id,
        ) by {
            if i < tables.memberships.len() {
                assert(after.memberships[i] == tables.memberships[i]);
            }
        }
    }
}

/// An expense that exists still exists when another is stored after it.
proof fn lemma_has_expense_push(expenses: Seq<ExpenseView>, expense: ExpenseView, expense_id: u32)
    ensures
        has_expense(expenses, expense_id) ==> has_expense(expenses.push(expense), expense_id),
        expense.id == Some(expense_id) ==> has_expense(expenses.push(expense), expense_id),
{
    if has_expense(expenses, expense_id) {
        let i = choose|i: int| 0 <= i < expenses.len() && (#[trigger] expenses[i]).id == Some(expense_id);
        assert(expenses.push(expense)[i].id == Some(expense_id));
    }
    if expense.id == Some(expense_id) {
        assert(expenses.push(expense)[expenses.len() as int].id == Some(expense_id));
    }
}

/// Storing an expense with its shares keeps the rules: the new shares owe
/// together the amount of the new expense, and no other expense gains or
/// loses a share.
pub proof fn lemma_add_expense_wf(tables: Tables, expense: ExpenseView)
    requires
        tables.wf(),
    ensures
        tables.add_expense(expense) matches Ok(after) ==> after.wf(),
{
    if let Ok(after) = tables.add_expense(expense) {
        let id = after.last_expense_id;
        let stored = ExpenseView { id: Some(id), ..expense };
        let split = split_of(expense.amount, expense.split_type, tables.members(expense.group))->Ok_0;
        let added = shares_for(id, split);
        lemma_split_total(expense.amount, expense.split_type, tables.members(expense.group));
        lemma_shares_for_total(id, split);
        assert forall|i: int, j: int| 0 <= i < j < after.expenses.len() implies (
        #[trigger] after.expenses[i]).id != (#[trigger] after.expenses[j]).id by {
            if j < tables.expenses.len() {
                assert(after.expenses[i] == tables.expenses[i] && after.expenses[j]
                    == tables.expenses[j]);
            } else {
                assert(after.expenses[i] == tables.expenses[i]);
            }
        }
        assert forall|i: int| 0 <= i < after.expenses.len() implies ((
        #[trigger] after.expenses[i]).id matches Some(k) && 1 <= k <= after.last_expense_id) by {
            if i < tables.expenses.len() {
                assert(after.expenses[i] == tables.expenses[i]);
            }
        }
        assert forall|i: int| 0 <= i < after.shares.len() implies has_expense(
            after.expenses,
            (#[trigger] after.shares[i]).expenses_id,
        ) by {
            lemma_has_expense_push(tables.expenses, stored, after.shares[i].expenses_id);
            if i < tables.shares.len() {
                assert(after.shares[i] == tables.shares[i]);
            } else {
                assert(after.shares[i] == added[i - tables.shares.len()]);
            }
        }
        // No share of an older expense carries the new identity.
        assert forall|i: int| 0 <= i < tables.shares.len() implies !share_of(id)(
            #[trigger] tables.shares[i],
        ) by {
            let k = tables.shares[i].expenses_id;
            assert(has_expense(tables.expenses, k));
            let e = choose|e: int| 0 <= e < tables.expenses.len() && (#[trigger] tables.expenses[e]).id == Some(k);
            assert(k <= tables.last_expense_id);
        }
        lemma_filter_none(tables.shares, share_of(id));
        assert forall|i: int| 0 <= i < after.expenses.len() implies total_owed(
            after.shares.filter(share_of((#[trigger] after.expenses[i]).id.unwrap())),
        ) == after.expenses[i].amount by {
            let k = after.expenses[i].id.unwrap();
            Seq::filter_distributes_over_add(tables.shares, added, share_of(k));
            if i < tables.expenses.len() {
                assert(after.expenses[i] == tables.expenses[i]);
                assert(k != id);
                assert forall|j: int| 0 <= j < added.len() implies !share_of(k)(#[trigger] added[j]) by {}
                lemma_filter_none(added, share_of(k));
                assert(tables.shares.filter(share_of(k)) + Seq::<UserExpensesView>::empty()
                    =~= tables.shares.filter(share_of(k)));
            } else {
                assert(k == id);
                assert forall|j: int| 0 <= j < added.len() implies share_of(k)(#[trigger] added[j]) by {}
                lemma_filter_all(added, share_of(k));
                assert(Seq::<UserExpensesView>::empty() + added =~= added);
            }
        }
    }
}

/// Taking a user out of a group keeps the rules.
pub proof fn lemma_remove_user_from_group_wf(tables: Tables, group_id: GroupId, user_id: Seq<char>)
    requires
        tables.wf(),
    ensures
        tables.remove_user_from_group(group_id, user_id) matches Ok(after) ==> after.wf(),
{
    if let Ok(after) = tables.remove_user_from_group(group_id, user_id) {
        let refers = |membership: GroupMembershipView| has_group(tables.groups, membership.group_id);
        assert(all_pass(tables.memberships, refers));
        lemma_filter_all_pass(tables.memberships, membership_is_not(user_id, group_id), refers);
        assert forall|i: int| 0 <= i < after.memberships.len() implies has_group(
            after.groups,
            (#[trigger] after.memberships[i]).group_id,
        ) by {
            assert(refers(after.memberships[i]));
        }
    }
}

/// Removing a user keeps the rules.
pub proof fn lemma_delete_user_wf(tables: Tables, user_id: Seq<char>)
    requires
        tables.wf(),
    ensures
        tables.delete_user(user_id) matches Ok(after) ==> after.wf(),
{
    if let Ok(after) = tables.delete_user(user_id) {
        let key = |user: UserView| user.user_id;
        assert(distinct_by(tables.users, key));
        lemma_filter_distinct(tables.users, user_is_not(user_id), key);
        assert forall|i: int, j: int| 0 <= i < j < after.users.len() implies (
        #[trigger] after.users[i]).user_id != (#[trigger] after.users[j]).user_id by {
            assert(key(after.users[i]) != key(after.users[j]));
        }
        let refers = |membership: GroupMembershipView| has_group(tables.groups, membership.group_id);
        assert(all_pass(tables.memberships, refers));
        lemma_filter_all_pass(tables.memberships, membership_not_of(user_id), refers);
        assert forall|i: int| 0 <= i < after.memberships.len() implies has_group(
            after.groups,
            (#[trigger] after.memberships[i]).group_id,
        ) by {
            assert(refers(after.memberships[i]));
        }
    }
}

/// Removing a group with its memberships keeps the rules.
pub proof fn lemma_delete_group_wf(tables: Tables, group_id: GroupId)
    requires
        tables.wf(),
    ensures
        tables.delete_group(group_id) matches Ok(after) ==> after.wf(),
{
    if let Ok(after) = tables.delete_group(group_id) {
        let key = |group: GroupView| group.group_id;
        assert(distinct_by(tables.groups, key));
        lemma_filter_distinct(tables.groups, group_is_not(group_id), key);
        assert forall|i: int, j: int| 0 <= i < j < after.groups.len() implies (
        #[trigger] after.groups[i]).group_id != (#[trigger] after.groups[j]).group_id by {
            assert(key(after.groups[i]) != key(after.groups[j]));
        }
        let issued = |group: GroupView| 1 <= group.group_id <= tables.last_group_id;
        assert(all_pass(tables.groups, issued));
        lemma_filter_all_pass(tables.groups, group_is_not(group_id), issued);
        assert forall|i: int| 0 <= i < after.groups.len() implies 1 <= (
        #[trigger] after.groups[i]).group_id <= after.last_group_id by {
            assert(issued(after.groups[i]));
        }
        let refers = |membership: GroupMembershipView| has_group(tables.groups, membership.group_id);
        assert(all_pass(tables.memberships, refers));
        lemma_filter_all_pass(tables.memberships, membership_not_in(group_id), refers);
        lemma_filter_members(tables.groups, group_is_not(group_id));
        assert forall|i: int| 0 <= i < after.memberships.len() implies has_group(
            after.groups,
            (#[trigger] after.memberships[i]).group_id,
        ) by {
            let membership = after.memberships[i];
            assert(refers(membership) && membership_not_in(group_id)(membership));
            let g = choose|g: int| 0 <= g < tables.groups.len() && (#[trigger] tables.groups[g]).group_id == membership.group_id;
            assert(tables.groups.contains(tables.groups[g]));
            assert(after.groups.contains(tables.groups[g]));
            let h = choose|h: int| 0 <= h < after.groups.len() && after.groups[h] == tables.groups[g];
            assert(after.groups[h].group_id == membership.group_id);
        }
    }
}

/// Removing an expense with its shares keeps the rules: every other expense
/// keeps exactly its shares.
pub proof fn lemma_delete_expense_wf(tables: Tables, expense_id: u32)
    requires
        tables.wf(),
    ensures
        tables.delete_expense(expense_id) matches Ok(after) ==> after.wf(),
{
    if let Ok(after) = tables.delete_expense(expense_id) {
        let key = |expense: ExpenseView| expense.id;
        assert(distinct_by(tables.expenses, key));
        lemma_filter_distinct(tables.expenses, expense_is_not(expense_id), key);
        assert forall|i: int, j: int| 0 <= i < j < after.expenses.len() implies (
        #[trigger] after.expenses[i]).id != (#[trigger] after.expenses[j]).id by {
            assert(key(after.expenses[i]) != key(after.expenses[j]));
        }
        let sound = |expense: ExpenseView|
            (expense.id matches Some(k) && 1 <= k <= tables.last_expense_id) && total_owed(
                tables.shares.filter(share_of(expense.id.unwrap())),
            ) == expense.amount;
        assert(all_pass(tables.expenses, sound));
        lemma_filter_all_pass(tables.expenses, expense_is_not(expense_id), sound);
        assert forall|i: int| 0 <= i < after.expenses.len() implies ((
        #[trigger] after.expenses[i]).id matches Some(k) && 1 <= k <= after.last_expense_id) by {
            assert(sound(after.expenses[i]));
        }
        let refers = |share: UserExpensesView| has_expense(tables.expenses, share.expenses_id);
        assert(all_pass(tables.shares, refers));
        lemma_filter_all_pass(tables.shares, share_not_of(expense_id), refers);
        lemma_filter_members(tables.expenses, expense_is_not(expense_id));
        assert forall|i: int| 0 <= i < after.shares.len() implies has_expense(
            after.expenses,
            (#[trigger] after.shares[i]).expenses_id,
        ) by {
            let share = after.shares[i];
            assert(refers(share) && share_not_of(expense_id)(share));
            let e = choose|e: int| 0 <= e < tables.expenses.len() && (#[trigger] tables.expenses[e]).id == Some(share.expenses_id);
            assert(tables.expenses.contains(tables.expenses[e]));
            assert(after.expenses.contains(tables.expenses[e]));
            let h = choose|h: int| 0 <= h < after.expenses.len() && after.expenses[h] == tables.expenses[e];
            assert(after.expenses[h].id == Some(share.expenses_id));
        }
        assert forall|i: int| 0 <= i < after.expenses.len() implies total_owed(
            after.shares.filter(share_of((#[trigger] after.expenses[i]).id.unwrap())),
        ) == after.expenses[i].amount by {
            let expense = after.expenses[i];
            let k = expense.id.unwrap();
            assert(sound(expense) && expense_is_not(expense_id)(expense));
            assert(k != expense_id);
            lemma_filter_twice(tables.shares, share_not_of(expense_id), share_of(k));
            lemma_filter_agree(
                tables.shares,
                |share: UserExpensesView| share_not_of(expense_id)(share) && share_of(k)(share),
                share_of(k),
            );
        }
    }
}

/// Every write keeps the rules, whether it succeeds or fails.
pub proof fn lemma_write_wf(tables: Tables, write: Write)
    requires
        tables.wf(),
    ensures
        tables.after(write).wf(),
{
    match write {
        Write::AddUser { user } => lemma_add_user_wf(tables, user),
        Write::AddGroup { group } => lemma_add_group_wf(tables, group),
        Write::AddUserToGroup { group_id, user_id } => lemma_add_user_to_group_wf(
            tables,
            group_id,
            user_id,
        ),
        Write::AddExpense { expense } => lemma_add_expense_wf(tables, expense),
        Write::RemoveUserFromGroup { group_id, user_id } => lemma_remove_user_from_group_wf(
            tables,
            group_id,
            user_id,
        ),
        Write::DeleteGroup { group_id } => lemma_delete_group_wf(tables, group_id),
        Write::DeleteUser { user_id } => lemma_delete_user_wf(tables, user_id),
        Write::DeleteExpense { expense_id } => lemma_delete_expense_wf(tables, expense_id),
    }
}

} // verus!
