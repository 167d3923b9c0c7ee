//! What holds of the storage engine whatever it is asked and in whatever
//! state it is: the laws that relate its operations to one another.

use vstd::prelude::*;
use crate::datamodel::{
    ExpenseView, GroupId, GroupMembershipView, GroupView, UserExpensesView, UserView,
};
use crate::error::DataError;
use crate::invariants::{lemma_shares_for_total, lemma_write_wf};
use crate::sequences::{
    lemma_filter_agree, lemma_filter_all, lemma_filter_first, lemma_filter_members,
    lemma_filter_none, lemma_filter_only, lemma_filter_twice,
};
use crate::split::{equal_share, lemma_equal_split_shares, lemma_split_total, split_of};
use crate::tables::{
    expense_is_not, group_is, group_is_not, has_expense, has_group, has_user, is_member, joined,
    membership_is_not, membership_not_in, membership_not_of, membership_of, share_not_of, share_of,
    shares_for, total_owed, user_is, user_is_not, user_with, Tables, Write,
};

verus! {

/// A group that was just created has exactly one member, its creator,
/// provided the creator is a user of the store; and the group is found
/// under the identity it was given.
pub proof fn lemma_new_group_has_its_creator(tables: Tables, group: GroupView)
    requires
        tables.wf(),
        has_user(tables.users, group.created_by),
    ensures
        tables.add_group(group) matches Ok(after) ==> {
            let group_id = after.last_group_id;
            &&& after.get_group(group_id) == Ok::<GroupView, DataError>(
                GroupView { group_id, ..group },
            )
            &&& after.get_group_members(group_id) matches Ok(members)
            &&& members.len() == 1
            &&& members[0].user_id == group.created_by
            &&& tables.get_user(group.created_by) == Ok::<UserView, DataError>(members[0])
        },
{
    if let Ok(after) = tables.add_group(group) {
        let group_id = after.last_group_id;
        let stored = GroupView { group_id, ..group };
        // The group is the only one with its identity.
        let place = tables.groups.len() as int;
        assert(after.groups[place] == stored);
        assert forall|j: int| 0 <= j < place implies !group_is(group_id)(#[trigger] after.groups[j]) by {
            assert(after.groups[j] == tables.groups[j]);
        }
        lemma_filter_first(after.groups, group_is(group_id), place);
        // No membership was in it before, so its creator is the first to join.
        assert forall|m: int| 0 <= m < tables.memberships.len() implies (
        #[trigger] tables.memberships[m]).group_id != group_id by {
            assert(has_group(tables.groups, tables.memberships[m].group_id));
            let g = choose|g: int| 0 <= g < tables.groups.len() && (#[trigger] tables.groups[g]).group_id == tables.memberships[m].group_id;
            assert(tables.groups[g].group_id <= tables.last_group_id);
        }
        lemma_nobody_joined(tables.users, tables.memberships, group_id);
        assert(after.memberships.drop_last() =~= tables.memberships);
        assert(!is_member(tables.memberships, group.created_by, group_id));
        // And the creator is the user that a lookup finds.
        let k = choose|k: int| 0 <= k < tables.users.len() && (#[trigger] tables.users[k]).user_id == group.created_by;
        assert forall|j: int| 0 <= j < tables.users.len() && j != k implies !user_is(group.created_by)(
            #[trigger] tables.users[j],
        ) by {
            if j < k {
                assert(tables.users[j].user_id != tables.users[k].user_id);
            } else {
                assert(tables.users[k].user_id != tables.users[j].user_id);
            }
        }
        lemma_filter_only(tables.users, user_is(group.created_by), k);
    }
}

/// The shares stored with a new expense are one for each member of its
/// group, in the order of the members; each is the whole quotient of the
/// amount by the number of members, and one unit more for the first members
/// as far as the remainder reaches; together they add up to the amount
/// exactly. No share of another expense is added or changed.
pub proof fn lemma_new_expense_shares_are_exact(tables: Tables, expense: ExpenseView)
    requires
        tables.wf(),
    ensures
        tables.add_expense(expense) matches Ok(after) ==> {
            let id = after.last_expense_id;
            let members = tables.members(expense.group);
            let inserted = after.shares.filter(share_of(id));
            &&& after.shares == tables.shares + inserted
            &&& inserted.len() == members.len()
            &&& members.len() > 0
            &&& total_owed(inserted) == expense.amount
            &&& forall|i: int|
                0 <= i < inserted.len() ==> (#[trigger] inserted[i]).user_id == members[i].user_id
                    && inserted[i].expenses_id == id && inserted[i].split == equal_share(
                    expense.amount as int,
                    members.len() as int,
                    i,
                )
        },
{
    if let Ok(after) = tables.add_expense(expense) {
        let id = after.last_expense_id;
        let members = tables.members(expense.group);
        let split = split_of(expense.amount, expense.split_type, members)->Ok_0;
        let added = shares_for(id, split);
        lemma_split_total(expense.amount, expense.split_type, members);
        lemma_shares_for_total(id, split);
        assert forall|i: int| 0 <= i < tables.shares.len() implies !share_of(id)(
            #[trigger] tables.shares[i],
        ) by {
            let k = tables.shares[i].expenses_id;
            assert(has_expense(tables.expenses, k));
            let e = choose|e: int| 0 <= e < tables.expenses.len() && (#[trigger] tables.expenses[e]).id == Some(k);
            assert(k <= tables.last_expense_id);
        }
        lemma_filter_none(tables.shares, share_of(id));
        assert forall|j: int| 0 <= j < added.len() implies share_of(id)(#[trigger] added[j]) by {}
        lemma_filter_all(added, share_of(id));
        Seq::filter_distributes_over_add(tables.shares, added, share_of(id));
        assert(Seq::<UserExpensesView>::empty() + added =~= added);
        lemma_equal_split_shares(expense.amount, members);
    }
}

/// Joining a user to a group that does not exist is refused as not found,
/// so that no membership is written.
pub proof fn lemma_no_membership_without_group(tables: Tables, group_id: GroupId, user_id: Seq<char>)
    requires
        tables.ready(),
        !has_group(tables.groups, group_id),
    ensures
        tables.add_user_to_group(group_id, user_id) == Err::<Tables, DataError>(DataError::NotFound),
{
}

/// A group that was deleted has no members and is not found any more.
pub proof fn lemma_deleted_group_is_gone(tables: Tables, group_id: GroupId)
    requires
        tables.ready(),
    ensures
        tables.delete_group(group_id) matches Ok(after) && after.get_group_members(group_id) == Ok::<
            Seq<UserView>,
            DataError,
        >(Seq::empty()) && after.get_group(group_id) == Err::<GroupView, DataError>(
            DataError::NotFound,
        ),
{
    let after = tables.delete_group(group_id)->Ok_0;
    lemma_filter_members(tables.groups, group_is_not(group_id));
    lemma_filter_members(tables.memberships, membership_not_in(group_id));
    assert(!has_group(after.groups, group_id)) by {
        if has_group(after.groups, group_id) {
            let g = choose|g: int| 0 <= g < after.groups.len() && (#[trigger] after.groups[g]).group_id == group_id;
            assert(after.groups.contains(after.groups[g]));
        }
    }
    assert forall|m: int| 0 <= m < after.memberships.len() implies (
    #[trigger] after.memberships[m]).group_id != group_id by {
        assert(after.memberships.contains(after.memberships[m]));
    }
    lemma_nobody_joined(after.users, after.memberships, group_id);
}

/// A user that was deleted is not found any more and is in no group.
pub proof fn lemma_deleted_user_is_gone(tables: Tables, user_id: Seq<char>)
    requires
        tables.ready(),
    ensures
        tables.delete_user(user_id) matches Ok(after) && after.get_user(user_id) == Err::<
            UserView,
            DataError,
        >(DataError::NotFound) && after.get_membership(user_id) == Ok::<
            Seq<GroupMembershipView>,
            DataError,
        >(Seq::empty()),
{
    let after = tables.delete_user(user_id)->Ok_0;
    lemma_filter_members(tables.users, user_is_not(user_id));
    lemma_filter_members(tables.memberships, membership_not_of(user_id));
    assert(!has_user(after.users, user_id)) by {
        if has_user(after.users, user_id) {
            let u = choose|u: int| 0 <= u < after.users.len() && (#[trigger] after.users[u]).user_id == user_id;
            assert(after.users.contains(after.users[u]));
        }
    }
    assert forall|m: int| 0 <= m < after.memberships.len() implies !membership_of(
        user_id,
    )(#[trigger] after.memberships[m]) by {
        assert(after.memberships.contains(after.memberships[m]));
    }
    lemma_filter_none(after.memberships, membership_of(user_id));
}

/// An expense and its shares are deleted together: afterwards the expense
/// is in no list, and no share of it is left.
pub proof fn lemma_deleted_expense_is_gone(tables: Tables, expense_id: u32)
    requires
        tables.ready(),
    ensures
        tables.delete_expense(expense_id) matches Ok(after) && !has_expense(
            after.expenses,
            expense_id,
        ) && after.get_shares(expense_id) == Ok::<Seq<UserExpensesView>, DataError>(Seq::empty()),
{
    let after = tables.delete_expense(expense_id)->Ok_0;
    lemma_filter_members(tables.expenses, expense_is_not(expense_id));
    lemma_filter_members(tables.shares, share_not_of(expense_id));
    if has_expense(after.expenses, expense_id) {
        let e = choose|e: int| 0 <= e < after.expenses.len() && (#[trigger] after.expenses[e]).id == Some(expense_id);
        assert(after.expenses.contains(after.expenses[e]));
    }
    assert forall|i: int| 0 <= i < after.shares.len() implies !share_of(expense_id)(
        #[trigger] after.shares[i],
    ) by {
        assert(after.shares.contains(after.shares[i]));
    }
    lemma_filter_none(after.shares, share_of(expense_id));
}

/// A user that was stored is the user that a lookup finds.
pub proof fn lemma_added_user_is_found(tables: Tables, user: UserView)
    requires
        tables.wf(),
    ensures
        tables.add_user(user) matches Ok(after) ==> after.get_user(user.user_id) == Ok::<
            UserView,
            DataError,
        >(user),
{
    if let Ok(after) = tables.add_user(user) {
        let place = tables.users.len() as int;
        assert(after.users[place] == user);
        assert forall|j: int| 0 <= j < place implies !user_is(user.user_id)(#[trigger] after.users[j]) by {
            assert(after.users[j] == tables.users[j]);
        }
        lemma_filter_first(after.users, user_is(user.user_id), place);
    }
}

/// A membership in a group is kept by every selection that lets the
/// memberships of that group pass, and no selection adds one.
proof fn lemma_selection_keeps_group(
    memberships: Seq<GroupMembershipView>,
    keep: spec_fn(GroupMembershipView) -> bool,
    user_id: Seq<char>,
    group_id: GroupId,
)
    requires
        forall|i: int|
            0 <= i < memberships.len() && (#[trigger] memberships[i]).group_id == group_id
                && memberships[i].user_id == user_id ==> keep(memberships[i]),
    ensures
        is_member(memberships.filter(keep), user_id, group_id) == is_member(
            memberships,
            user_id,
            group_id,
        ),
{
    let kept = memberships.filter(keep);
    lemma_filter_members(memberships, keep);
    if is_member(kept, user_id, group_id) {
        let i = choose|i: int|
            0 <= i < kept.len() && (#[trigger] kept[i]).user_id == user_id && kept[i].group_id
                == group_id;
        assert(kept.contains(kept[i]));
        let j = choose|j: int| 0 <= j < memberships.len() && memberships[j] == kept[i];
        assert(memberships[j].user_id == user_id && memberships[j].group_id == group_id);
    }
    if is_member(memberships, user_id, group_id) {
        let j = choose|j: int|
            0 <= j < memberships.len() && (#[trigger] memberships[j]).user_id == user_id
                && memberships[j].group_id == group_id;
        assert(memberships.contains(memberships[j]));
        assert(kept.contains(memberships[j]));
        let i = choose|i: int| 0 <= i < kept.len() && kept[i] == memberships[j];
        assert(kept[i].user_id == user_id && kept[i].group_id == group_id);
    }
}

/// Among users with distinct identities, the user that a lookup finds is
/// the one user with the identity looked up.
proof fn lemma_user_with(users: Seq<UserView>, user_id: Seq<char>)
    requires
        forall|i: int, j: int|
            0 <= i < j < users.len() ==> (#[trigger] users[i]).user_id != (#[trigger] users[j]).user_id,
        has_user(users, user_id),
    ensures
        users.contains(user_with(users, user_id)),
        user_with(users, user_id).user_id == user_id,
        forall|user: UserView|
            users.contains(user) && user.user_id == user_id ==> user == user_with(users, user_id),
{
    let k = choose|k: int| 0 <= k < users.len() && (#[trigger] users[k]).user_id == user_id;
    assert forall|j: int| 0 <= j < users.len() && j != k implies !user_is(user_id)(
        #[trigger] users[j],
    ) by {
        if j < k {
            assert(users[j].user_id != users[k].user_id);
        } else {
            assert(users[k].user_id != users[j].user_id);
        }
    }
    lemma_filter_only(users, user_is(user_id), k);
    assert(users[k] == user_with(users, user_id));
    assert forall|user: UserView| users.contains(user) && user.user_id == user_id implies user
        == user_with(users, user_id) by {
        let j = choose|j: int| 0 <= j < users.len() && users[j] == user;
        assert(user_is(user_id)(users[j]));
    }
}

/// Those joined to a group are the users whom some membership joins to
/// it, and no one else; and no one is listed twice.
proof fn lemma_joined_are_the_members(
    users: Seq<UserView>,
    memberships: Seq<GroupMembershipView>,
    group_id: GroupId,
)
    requires
        forall|i: int, j: int|
            0 <= i < j < users.len() ==> (#[trigger] users[i]).user_id != (#[trigger] users[j]).user_id,
    ensures
        forall|user: UserView| #[trigger]
            joined(users, memberships, group_id).contains(user) <==> users.contains(user)
                && is_member(memberships, user.user_id, group_id),
        forall|a: int, b: int|
            0 <= a < b < joined(users, memberships, group_id).len() ==> (#[trigger] joined(
                users,
                memberships,
                group_id,
            )[a]).user_id != (#[trigger] joined(users, memberships, group_id)[b]).user_id,
    decreases memberships.len(),
{
    let listed = joined(users, memberships, group_id);
    if memberships.len() > 0 {
        let earlier = memberships.drop_last();
        let last = memberships.last();
        let before = joined(users, earlier, group_id);
        lemma_joined_are_the_members(users, earlier, group_id);
        assert(last == memberships[memberships.len() - 1]);
        let added = last.group_id == group_id && !is_member(earlier, last.user_id, group_id)
            && has_user(users, last.user_id);
        if has_user(users, last.user_id) {
            lemma_user_with(users, last.user_id);
        }
        let found = user_with(users, last.user_id);
        assert forall|user: UserView| #[trigger]
            listed.contains(user) <==> users.contains(user) && is_member(
                memberships,
                user.user_id,
                group_id,
            ) by {
            if listed.contains(user) {
                let i = choose|i: int| 0 <= i < listed.len() && listed[i] == user;
                if added && i == before.len() {
                    assert(user == found);
                } else {
                    assert(before[i] == user);
                    assert(before.contains(user));
                    let m = choose|m: int|
                        0 <= m < earlier.len() && (#[trigger] earlier[m]).user_id == user.user_id
                            && earlier[m].group_id == group_id;
                    assert(memberships[m] == earlier[m]);
                }
            }
            if users.contains(user) && is_member(memberships, user.user_id, group_id) {
                let m = choose|m: int|
                    0 <= m < memberships.len() && (#[trigger] memberships[m]).user_id == user.user_id
                        && memberships[m].group_id == group_id;
                if m < earlier.len() {
                    assert(earlier[m] == memberships[m]);
                    assert(is_member(earlier, user.user_id, group_id));
                    assert(before.contains(user));
                    let i = choose|i: int| 0 <= i < before.len() && before[i] == user;
                    assert(listed[i] == user);
                } else {
                    let j = choose|j: int| 0 <= j < users.len() && users[j] == user;
                    assert(has_user(users, last.user_id));
                    if added {
                        assert(listed[before.len() as int] == found);
                    } else {
                        assert(is_member(earlier, user.user_id, group_id));
                        assert(before.contains(user));
                        let i = choose|i: int| 0 <= i < before.len() && before[i] == user;
                        assert(listed[i] == user);
                    }
                }
            }
        }
        assert forall|a: int, b: int| 0 <= a < b < listed.len() implies (#[trigger] listed[a]).user_id
            != (#[trigger] listed[b]).user_id by {
            if added && b == before.len() {
                assert(before[a] == listed[a]);
                assert(before.contains(before[a]));
            } else {
                assert(before[a] == listed[a] && before[b] == listed[b]);
            }
        }
    } else {
        assert forall|user: UserView| #[trigger]
            listed.contains(user) <==> users.contains(user) && is_member(
                memberships,
                user.user_id,
                group_id,
            ) by {}
    }
}

/// The members of a group are the users of the store whom a membership
/// joins to the group, each of them once.
pub proof fn lemma_members_are_those_joined(tables: Tables, group_id: GroupId)
    requires
        tables.wf(),
    ensures
        forall|user: UserView| #[trigger]
            tables.members(group_id).contains(user) <==> tables.users.contains(user) && is_member(
                tables.memberships,
                user.user_id,
                group_id,
            ),
        forall|a: int, b: int|
            0 <= a < b < tables.members(group_id).len() ==> (#[trigger] tables.members(
                group_id,
            )[a]).user_id != (#[trigger] tables.members(group_id)[b]).user_id,
{
    lemma_joined_are_the_members(tables.users, tables.memberships, group_id);
}

/// Whoever joins a group comes last in the list of its members: a user of
/// the store who was not joined to the group before is added at the end,
/// and the list stays as it was where the one who joins is no user or was
/// joined already. So the members stand in the order in which they joined,
/// the creator first.
pub proof fn lemma_joining_appends(tables: Tables, group_id: GroupId, user_id: Seq<char>)
    ensures
        tables.add_user_to_group(group_id, user_id) matches Ok(after) ==> after.get_group_members(
            group_id,
        ) == Ok::<Seq<UserView>, DataError>(
            if has_user(tables.users, user_id) && !is_member(tables.memberships, user_id, group_id) {
                tables.members(group_id).push(user_with(tables.users, user_id))
            } else {
                tables.members(group_id)
            },
        ),
{
    if let Ok(after) = tables.add_user_to_group(group_id, user_id) {
        assert(after.memberships.drop_last() =~= tables.memberships);
    }
}

/// Where no membership is in a group, nobody is joined to it.
pub proof fn lemma_nobody_joined(
    users: Seq<UserView>,
    memberships: Seq<GroupMembershipView>,
    group_id: GroupId,
)
    requires
        forall|i: int| 0 <= i < memberships.len() ==> (#[trigger] memberships[i]).group_id != group_id,
    ensures
        joined(users, memberships, group_id) == Seq::<UserView>::empty(),
        forall|user_id: Seq<char>| !is_member(memberships, user_id, group_id),
    decreases memberships.len(),
{
    if memberships.len() > 0 {
        let earlier = memberships.drop_last();
        assert forall|i: int| 0 <= i < earlier.len() implies (#[trigger] earlier[i]).group_id
            != group_id by {
            assert(earlier[i] == memberships[i]);
        }
        lemma_nobody_joined(users, earlier, group_id);
        assert(memberships[memberships.len() - 1].group_id != group_id);
    }
}

/// The list of those joined to a group depends on the users only as far as
/// its memberships name them.
proof fn lemma_joined_same_users(
    users: Seq<UserView>,
    others: Seq<UserView>,
    memberships: Seq<GroupMembershipView>,
    group_id: GroupId,
)
    requires
        forall|i: int|
            0 <= i < memberships.len() && (#[trigger] memberships[i]).group_id == group_id ==> has_user(
                users,
                memberships[i].user_id,
            ) == has_user(others, memberships[i].user_id) && user_with(users, memberships[i].user_id)
                == user_with(others, memberships[i].user_id),
    ensures
        joined(users, memberships, group_id) == joined(others, memberships, group_id),
    decreases memberships.len(),
{
    if memberships.len() > 0 {
        let earlier = memberships.drop_last();
        assert forall|i: int|
            0 <= i < earlier.len() && (#[trigger] earlier[i]).group_id == group_id implies has_user(
            users,
            earlier[i].user_id,
        ) == has_user(others, earlier[i].user_id) && user_with(users, earlier[i].user_id)
            == user_with(others, earlier[i].user_id) by {
            assert(earlier[i] == memberships[i]);
        }
        lemma_joined_same_users(users, others, earlier, group_id);
        assert(memberships.last() == memberships[memberships.len() - 1]);
    }
}

/// A selection that lets every membership of a group pass leaves the list
/// of those joined to the group as it was.
proof fn lemma_joined_selection(
    users: Seq<UserView>,
    memberships: Seq<GroupMembershipView>,
    keep: spec_fn(GroupMembershipView) -> bool,
    group_id: GroupId,
)
    requires
        forall|i: int|
            0 <= i < memberships.len() && (#[trigger] memberships[i]).group_id == group_id ==> keep(
                memberships[i],
            ),
    ensures
        joined(users, memberships.filter(keep), group_id) == joined(users, memberships, group_id),
    decreases memberships.len(),
{
    reveal(Seq::filter);
    if memberships.len() > 0 {
        let earlier = memberships.drop_last();
        let last = memberships.last();
        assert forall|i: int|
            0 <= i < earlier.len() && (#[trigger] earlier[i]).group_id == group_id implies keep(
            earlier[i],
        ) by {
            assert(earlier[i] == memberships[i]);
        }
        lemma_joined_selection(users, earlier, keep, group_id);
        assert(last == memberships[memberships.len() - 1]);
        if keep(last) {
            let kept = earlier.filter(keep);
            assert(memberships.filter(keep) == kept.push(last));
            assert(kept.push(last).drop_last() =~= kept);
            lemma_selection_keeps_group(earlier, keep, last.user_id, group_id);
        }
    }
}

/// Storing another user changes neither whether a user with a different
/// identity exists nor which user a lookup of that identity finds.
proof fn lemma_lookup_after_push(users: Seq<UserView>, added: UserView, user_id: Seq<char>)
    ensures
        added.user_id != user_id ==> has_user(users.push(added), user_id) == has_user(users, user_id)
            && user_with(users.push(added), user_id) == user_with(users, user_id),
{
    if added.user_id != user_id {
        let grown = users.push(added);
        users.lemma_filter_push(added, user_is(user_id));
        if has_user(grown, user_id) {
            let i = choose|i: int| 0 <= i < grown.len() && (#[trigger] grown[i]).user_id == user_id;
            assert(users[i] == grown[i]);
        }
        if has_user(users, user_id) {
            let i = choose|i: int| 0 <= i < users.len() && (#[trigger] users[i]).user_id == user_id;
            assert(grown[i] == users[i]);
        }
    }
}

/// Removing a user changes neither whether a user with a different identity
/// exists nor which user a lookup of that identity finds.
proof fn lemma_lookup_after_removal(users: Seq<UserView>, removed: Seq<char>, user_id: Seq<char>)
    ensures
        removed != user_id ==> has_user(users.filter(user_is_not(removed)), user_id) == has_user(
            users,
            user_id,
        ) && user_with(users.filter(user_is_not(removed)), user_id) == user_with(users, user_id),
{
    if removed != user_id {
        let others = user_is_not(removed);
        let kept = users.filter(others);
        lemma_filter_twice(users, others, user_is(user_id));
        lemma_filter_agree(
            users,
            |user: UserView| others(user) && user_is(user_id)(user),
            user_is(user_id),
        );
        lemma_filter_members(users, others);
        if has_user(kept, user_id) {
            let i = choose|i: int| 0 <= i < kept.len() && (#[trigger] kept[i]).user_id == user_id;
            assert(kept.contains(kept[i]));
            let j = choose|j: int| 0 <= j < users.len() && users[j] == kept[i];
            assert(users[j].user_id == user_id);
        }
        if has_user(users, user_id) {
            let j = choose|j: int| 0 <= j < users.len() && (#[trigger] users[j]).user_id == user_id;
            assert(users.contains(users[j]));
            assert(kept.contains(users[j]));
            let i = choose|i: int| 0 <= i < kept.len() && kept[i] == users[j];
            assert(kept[i].user_id == user_id);
        }
    }
}

/// A write that does not concern a group leaves the group and the list of
/// its members as they were: whatever else is written in between, the
/// members of a group are those who were joined to it.
pub proof fn lemma_unrelated_write_keeps_members(tables: Tables, write: Write, group_id: GroupId)
    requires
        tables.wf(),
        has_group(tables.groups, group_id),
        !tables.concerns(write, group_id),
    ensures
        tables.apply(write) matches Ok(after) ==> after.get_group_members(group_id)
            == tables.get_group_members(group_id) && after.get_group(group_id) == tables.get_group(
            group_id,
        ),
{
    if let Ok(after) = tables.apply(write) {
        let users = tables.users;
        let rows = tables.memberships;
        match write {
            Write::AddUser { user } => {
                assert forall|i: int| 0 <= i < rows.len() && (#[trigger] rows[i]).group_id
                    == group_id implies has_user(after.users, rows[i].user_id) == has_user(
                    users,
                    rows[i].user_id,
                ) && user_with(after.users, rows[i].user_id) == user_with(users, rows[i].user_id) by {
                    lemma_lookup_after_push(users, user, rows[i].user_id);
                }
                lemma_joined_same_users(after.users, users, rows, group_id);
            },
            Write::AddGroup { group } => {
                let stored = GroupView { group_id: after.last_group_id, ..group };
                let g = choose|g: int| 0 <= g < tables.groups.len() && (#[trigger] tables.groups[g]).group_id == group_id;
                assert(tables.groups[g].group_id <= tables.last_group_id);
                assert(after.memberships.drop_last() =~= rows);
                tables.groups.lemma_filter_push(stored, group_is(group_id));
                assert(after.groups[g] == tables.groups[g]);
            },
            Write::AddUserToGroup { group_id: other, user_id } => {
                assert(after.memberships.drop_last() =~= rows);
            },
            Write::AddExpense { expense } => {},
            Write::RemoveUserFromGroup { group_id: other, user_id } => {
                lemma_joined_selection(users, rows, membership_is_not(user_id, other), group_id);
            },
            Write::DeleteGroup { group_id: other } => {
                lemma_joined_selection(users, rows, membership_not_in(other), group_id);
                let others = group_is_not(other);
                lemma_filter_twice(tables.groups, others, group_is(group_id));
                lemma_filter_agree(
                    tables.groups,
                    |group: GroupView| others(group) && group_is(group_id)(group),
                    group_is(group_id),
                );
                lemma_filter_members(tables.groups, others);
                let g = choose|g: int| 0 <= g < tables.groups.len() && (#[trigger] tables.groups[g]).group_id == group_id;
                assert(tables.groups.contains(tables.groups[g]));
                assert(after.groups.contains(tables.groups[g]));
                let h = choose|h: int| 0 <= h < after.groups.len() && after.groups[h] == tables.groups[g];
                assert(after.groups[h].group_id == group_id);
            },
            Write::DeleteUser { user_id } => {
                assert forall|i: int| 0 <= i < rows.len() && (#[trigger] rows[i]).group_id
                    == group_id implies membership_not_of(user_id)(rows[i]) && has_user(
                    after.users,
                    rows[i].user_id,
                ) == has_user(users, rows[i].user_id) && user_with(after.users, rows[i].user_id)
                    == user_with(users, rows[i].user_id) by {
                    lemma_lookup_after_removal(users, user_id, rows[i].user_id);
                }
                lemma_joined_selection(after.users, rows, membership_not_of(user_id), group_id);
                lemma_joined_same_users(after.users, users, rows, group_id);
            },
            Write::DeleteExpense { expense_id } => {},
        }
    }
}

/// However many writes that do not concern a group are tried between two
/// looks at it, the group and the list of its members are found as they
/// were. So the creator stays the only member of a new group until a write
/// that concerns the group succeeds.
pub proof fn lemma_unrelated_writes_keep_members(tables: Tables, writes: Seq<Write>, group_id: GroupId)
    requires
        tables.wf(),
        has_group(tables.groups, group_id),
        tables.none_concerns(writes, group_id),
    ensures
        tables.after_all(writes).wf(),
        has_group(tables.after_all(writes).groups, group_id),
        tables.after_all(writes).get_group_members(group_id) == tables.get_group_members(group_id),
        tables.after_all(writes).get_group(group_id) == tables.get_group(group_id),
    decreases writes.len(),
{
    if writes.len() > 0 {
        let next = tables.after(writes[0]);
        lemma_write_wf(tables, writes[0]);
        lemma_unrelated_write_keeps_members(tables, writes[0], group_id);
        assert(has_group(next.groups, group_id)) by {
            if tables.apply(writes[0]) is Ok {
                assert(tables.ready());
                assert(next.ready());
                assert(next.get_group(group_id) is Ok);
            }
        }
        lemma_unrelated_writes_keep_members(next, writes.skip(1), group_id);
    }
}

} // verus!
