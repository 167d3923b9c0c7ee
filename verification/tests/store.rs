use entelur::datamodel::{Datamodel, Expense, Group, GroupMembership, SplitType, User, UserExpenses};
use entelur::error::DataError;
use entelur::store::Store;

fn user(id: &str) -> User {
    User::new(id.to_string(), format!("{} name", id), format!("@{}", id))
}

fn group(name: &str, creator: &str) -> Group {
    Group::new(0, name.to_string(), format!("about {}", name), creator.to_string())
}

fn expense(by: &str, group: u32, amount: u32) -> Expense {
    Expense::new(by.to_string(), group, amount, "dinner".to_string(), "friday".to_string())
}

fn ready_store() -> Store {
    let mut store = Store::new();
    store.migrate_database(1700000000).unwrap();
    store
}

fn ids(users: &[User]) -> Vec<String> {
    users.iter().map(|user| user.user_id.clone()).collect()
}

fn pairs(memberships: &[GroupMembership]) -> Vec<(String, u32)> {
    memberships.iter().map(|m| (m.user_id.clone(), m.group_id)).collect()
}

fn shares(rows: &[UserExpenses]) -> Vec<(String, u32, u32)> {
    rows.iter().map(|row| (row.user_id.clone(), row.expenses_id, row.split)).collect()
}

/// The identity of the group that `creator` was joined to last.
fn last_group_of(store: &Store, creator: &str) -> u32 {
    store.get_membership(creator.to_string()).unwrap().last().unwrap().group_id
}

#[test]
fn every_operation_fails_before_the_migration() {
    let mut store = Store::new();
    let failure = DataError::IoOrEngineFailure;
    assert_eq!(store.add_user(user("alice")), Err(failure));
    assert_eq!(store.add_group(group("trip", "alice")), Err(failure));
    assert_eq!(store.add_user_to_group(1, "alice".to_string()), Err(failure));
    assert_eq!(store.add_expense(expense("alice", 1, 10)), Err(failure));
    assert_eq!(store.get_user("alice".to_string()).err(), Some(failure));
    assert_eq!(store.get_group(1).err(), Some(failure));
    assert_eq!(store.get_group_members(1).err(), Some(failure));
    assert_eq!(store.get_expenses(1).err(), Some(failure));
    assert_eq!(store.get_membership("alice".to_string()).err(), Some(failure));
    assert_eq!(store.get_shares(1).err(), Some(failure));
    assert_eq!(store.remove_user_from_group(1, "alice".to_string()), Err(failure));
    assert_eq!(store.delete_group(1), Err(failure));
    assert_eq!(store.delete_user("alice".to_string()), Err(failure));
    assert_eq!(store.delete_expense(1), Err(failure));
    // and nothing was written meanwhile
    store.migrate_database(1).unwrap();
    assert_eq!(store.get_user("alice".to_string()).err(), Some(DataError::NotFound));
    assert!(store.get_membership("alice".to_string()).unwrap().is_empty());
}

#[test]
fn migrate_database_twice_is_a_success() {
    let mut store = Store::new();
    assert_eq!(store.migrate_database(5), Ok(()));
    assert_eq!(store.add_user(user("alice")), Ok(()));
    assert_eq!(store.migrate_database(6), Ok(()));
    assert_eq!(store.get_user("alice".to_string()).unwrap().user_id, "alice");
}

#[test]
fn add_user_then_get_user() {
    let mut store = ready_store();
    assert_eq!(store.add_user(User::new("1".into(), "Alice".into(), "al".into())), Ok(()));
    let found = store.get_user("1".to_string()).unwrap();
    assert_eq!(found.user_id, "1");
    assert_eq!(found.name, "Alice");
    assert_eq!(found.username, "al");
}

#[test]
fn add_user_twice_is_a_conflict() {
    let mut store = ready_store();
    assert_eq!(store.add_user(User::new("1".into(), "Alice".into(), "al".into())), Ok(()));
    assert_eq!(
        store.add_user(User::new("1".into(), "Mallory".into(), "mal".into())),
        Err(DataError::Conflict)
    );
    let found = store.get_user("1".to_string()).unwrap();
    assert_eq!(found.name, "Alice");
    assert_eq!(found.username, "al");
}

#[test]
fn get_user_of_nobody_is_not_found() {
    let mut store = ready_store();
    assert_eq!(store.get_user("ghost".to_string()).err(), Some(DataError::NotFound));
    store.add_user(user("alice")).unwrap();
    assert_eq!(store.get_user("ghost".to_string()).err(), Some(DataError::NotFound));
    assert_eq!(store.get_user("".to_string()).err(), Some(DataError::NotFound));
}

#[test]
fn add_group_assigns_rising_identities() {
    let mut store = ready_store();
    store.add_user(user("alice")).unwrap();
    assert_eq!(store.add_group(Group::new(77, "a".into(), "first".into(), "alice".into())), Ok(()));
    assert_eq!(store.add_group(Group::new(77, "b".into(), "second".into(), "alice".into())), Ok(()));
    let memberships = store.get_membership("alice".to_string()).unwrap();
    assert_eq!(pairs(&memberships), vec![("alice".to_string(), 1), ("alice".to_string(), 2)]);
    let first = store.get_group(1).unwrap();
    assert_eq!(first.group_id, 1);
    assert_eq!(first.name, "a");
    assert_eq!(first.description, "first");
    assert_eq!(first.created_by, "alice");
    assert_eq!(store.get_group(2).unwrap().name, "b");
    assert_eq!(store.get_group(77).err(), Some(DataError::NotFound));
}

#[test]
fn identities_of_deleted_groups_are_not_used_again() {
    let mut store = ready_store();
    store.add_user(user("alice")).unwrap();
    store.add_group(group("a", "alice")).unwrap();
    store.delete_group(1).unwrap();
    store.add_group(group("b", "alice")).unwrap();
    assert_eq!(store.get_group(1).err(), Some(DataError::NotFound));
    assert_eq!(store.get_group(2).unwrap().name, "b");
}

#[test]
fn new_group_has_exactly_its_creator() {
    let mut store = ready_store();
    store.add_user(user("bob")).unwrap();
    store.add_user(user("alice")).unwrap();
    store.add_group(group("other", "bob")).unwrap();
    store.add_group(group("trip", "alice")).unwrap();
    let trip = last_group_of(&store, "alice");
    let members = store.get_group_members(trip).unwrap();
    assert_eq!(ids(&members), vec!["alice".to_string()]);
    assert_eq!(members[0].name, "alice name");
    // writes that concern others do not change that
    store.add_user(user("carol")).unwrap();
    store.add_group(group("third", "carol")).unwrap();
    store.add_user_to_group(1, "carol".to_string()).unwrap();
    store.delete_user("bob".to_string()).unwrap();
    assert_eq!(ids(&store.get_group_members(trip).unwrap()), vec!["alice".to_string()]);
}

#[test]
fn creator_who_is_no_user_is_joined_but_not_listed() {
    let mut store = ready_store();
    assert_eq!(store.add_group(group("trip", "ghost")), Ok(()));
    assert_eq!(pairs(&store.get_membership("ghost".to_string()).unwrap()), vec![("ghost".to_string(), 1)]);
    assert!(store.get_group_members(1).unwrap().is_empty());
    store.add_user(user("ghost")).unwrap();
    assert_eq!(ids(&store.get_group_members(1).unwrap()), vec!["ghost".to_string()]);
}

#[test]
fn add_user_to_missing_group_is_not_found_and_writes_nothing() {
    let mut store = ready_store();
    store.add_user(user("alice")).unwrap();
    assert_eq!(store.add_user_to_group(1, "alice".to_string()), Err(DataError::NotFound));
    assert!(store.get_membership("alice".to_string()).unwrap().is_empty());
    store.add_group(group("trip", "alice")).unwrap();
    assert_eq!(store.add_user_to_group(2, "alice".to_string()), Err(DataError::NotFound));
    assert_eq!(store.add_user_to_group(0, "alice".to_string()), Err(DataError::NotFound));
    assert_eq!(pairs(&store.get_membership("alice".to_string()).unwrap()), vec![("alice".to_string(), 1)]);
}

#[test]
fn members_come_in_the_order_in_which_they_joined() {
    let mut store = ready_store();
    store.add_user(user("alice")).unwrap();
    store.add_user(user("bob")).unwrap();
    store.add_user(user("carol")).unwrap();
    store.add_group(group("trip", "carol")).unwrap();
    store.add_user_to_group(1, "bob".to_string()).unwrap();
    store.add_user_to_group(1, "alice".to_string()).unwrap();
    assert_eq!(
        ids(&store.get_group_members(1).unwrap()),
        vec!["carol".to_string(), "bob".to_string(), "alice".to_string()]
    );
}

#[test]
fn creator_comes_first_whoever_registered_first() {
    let mut store = ready_store();
    store.add_user(user("bob")).unwrap();
    store.add_user(user("alice")).unwrap();
    store.add_group(group("trip", "alice")).unwrap();
    store.add_user_to_group(1, "bob".to_string()).unwrap();
    assert_eq!(ids(&store.get_group_members(1).unwrap()), vec!["alice".to_string(), "bob".to_string()]);
    // the remainder of a split goes to those who joined first
    store.add_expense(expense("bob", 1, 5)).unwrap();
    assert_eq!(
        shares(&store.get_shares(1).unwrap()),
        vec![("alice".to_string(), 1, 3), ("bob".to_string(), 1, 2)]
    );
}

#[test]
fn a_member_who_left_and_came_back_comes_last() {
    let mut store = ready_store();
    for id in ["alice", "bob", "carol"] {
        store.add_user(user(id)).unwrap();
    }
    store.add_group(group("trip", "alice")).unwrap();
    store.add_user_to_group(1, "bob".to_string()).unwrap();
    store.add_user_to_group(1, "carol".to_string()).unwrap();
    store.remove_user_from_group(1, "alice".to_string()).unwrap();
    store.add_user_to_group(1, "alice".to_string()).unwrap();
    assert_eq!(
        ids(&store.get_group_members(1).unwrap()),
        vec!["bob".to_string(), "carol".to_string(), "alice".to_string()]
    );
    // joining again while joined does not move anyone
    store.add_user_to_group(1, "bob".to_string()).unwrap();
    assert_eq!(
        ids(&store.get_group_members(1).unwrap()),
        vec!["bob".to_string(), "carol".to_string(), "alice".to_string()]
    );
}

#[test]
fn a_member_joined_twice_is_listed_once() {
    let mut store = ready_store();
    store.add_user(user("alice")).unwrap();
    store.add_user(user("bob")).unwrap();
    store.add_group(group("trip", "alice")).unwrap();
    store.add_user_to_group(1, "bob".to_string()).unwrap();
    store.add_user_to_group(1, "bob".to_string()).unwrap();
    assert_eq!(ids(&store.get_group_members(1).unwrap()), vec!["alice".to_string(), "bob".to_string()]);
    assert_eq!(store.get_membership("bob".to_string()).unwrap().len(), 2);
    store.remove_user_from_group(1, "bob".to_string()).unwrap();
    assert!(store.get_membership("bob".to_string()).unwrap().is_empty());
    assert_eq!(ids(&store.get_group_members(1).unwrap()), vec!["alice".to_string()]);
}

#[test]
fn members_of_a_group_without_members_is_an_empty_list() {
    let mut store = ready_store();
    assert!(store.get_group_members(1).unwrap().is_empty());
    store.add_user(user("alice")).unwrap();
    store.add_group(group("trip", "alice")).unwrap();
    store.remove_user_from_group(1, "alice".to_string()).unwrap();
    assert!(store.get_group_members(1).unwrap().is_empty());
    assert_eq!(store.get_group(1).unwrap().name, "trip");
}

#[test]
fn remove_user_from_group_removes_only_that_membership() {
    let mut store = ready_store();
    store.add_user(user("alice")).unwrap();
    store.add_user(user("bob")).unwrap();
    store.add_group(group("one", "alice")).unwrap();
    store.add_group(group("two", "alice")).unwrap();
    store.add_user_to_group(1, "bob".to_string()).unwrap();
    store.add_user_to_group(2, "bob".to_string()).unwrap();
    assert_eq!(store.remove_user_from_group(1, "bob".to_string()), Ok(()));
    assert_eq!(pairs(&store.get_membership("bob".to_string()).unwrap()), vec![("bob".to_string(), 2)]);
    assert_eq!(store.get_membership("alice".to_string()).unwrap().len(), 2);
    assert_eq!(store.get_user("bob".to_string()).unwrap().user_id, "bob");
    // removing what is not there is a success that changes nothing
    assert_eq!(store.remove_user_from_group(1, "bob".to_string()), Ok(()));
    assert_eq!(store.remove_user_from_group(9, "nobody".to_string()), Ok(()));
    assert_eq!(store.get_membership("alice".to_string()).unwrap().len(), 2);
}

#[test]
fn deleted_group_has_no_members_and_is_not_found() {
    let mut store = ready_store();
    store.add_user(user("alice")).unwrap();
    store.add_user(user("bob")).unwrap();
    store.add_group(group("trip", "alice")).unwrap();
    store.add_group(group("home", "bob")).unwrap();
    store.add_user_to_group(1, "bob".to_string()).unwrap();
    assert_eq!(store.delete_group(1), Ok(()));
    assert!(store.get_group_members(1).unwrap().is_empty());
    assert_eq!(store.get_group(1).err(), Some(DataError::NotFound));
    // the other group and the users are untouched
    assert_eq!(store.get_group(2).unwrap().name, "home");
    assert_eq!(pairs(&store.get_membership("bob".to_string()).unwrap()), vec![("bob".to_string(), 2)]);
    assert!(store.get_membership("alice".to_string()).unwrap().is_empty());
    assert_eq!(store.get_user("alice".to_string()).unwrap().user_id, "alice");
    // deleting it again is a success
    assert_eq!(store.delete_group(1), Ok(()));
    assert_eq!(store.add_user_to_group(1, "alice".to_string()), Err(DataError::NotFound));
}

#[test]
fn deleted_user_is_gone_with_their_memberships() {
    let mut store = ready_store();
    store.add_user(user("alice")).unwrap();
    store.add_user(user("bob")).unwrap();
    store.add_group(group("trip", "alice")).unwrap();
    store.add_user_to_group(1, "bob".to_string()).unwrap();
    assert_eq!(store.delete_user("bob".to_string()), Ok(()));
    assert_eq!(store.get_user("bob".to_string()).err(), Some(DataError::NotFound));
    assert!(store.get_membership("bob".to_string()).unwrap().is_empty());
    assert_eq!(ids(&store.get_group_members(1).unwrap()), vec!["alice".to_string()]);
    assert_eq!(store.delete_user("bob".to_string()), Ok(()));
    // the identity is free again
    assert_eq!(store.add_user(user("bob")), Ok(()));
    assert_eq!(ids(&store.get_group_members(1).unwrap()), vec!["alice".to_string()]);
}

#[test]
fn add_expense_to_missing_group_is_not_found() {
    let mut store = ready_store();
    store.add_user(user("alice")).unwrap();
    assert_eq!(store.add_expense(expense("alice", 1, 100)), Err(DataError::NotFound));
    assert!(store.get_expenses(1).unwrap().is_empty());
    assert!(store.get_shares(1).unwrap().is_empty());
}

#[test]
fn add_expense_with_unsupported_split_writes_nothing() {
    let mut store = ready_store();
    store.add_user(user("alice")).unwrap();
    store.add_group(group("trip", "alice")).unwrap();
    for code in [SplitType::Percent.try_into().unwrap(), SplitType::Amount.try_into().unwrap(), 9u32] {
        let mut odd = expense("alice", 1, 100);
        odd.split_type = code;
        assert_eq!(store.add_expense(odd), Err(DataError::InvalidInput));
    }
    assert!(store.get_expenses(1).unwrap().is_empty());
    assert!(store.get_shares(1).unwrap().is_empty());
    // the identity that a failed expense would have had is still free
    assert_eq!(store.add_expense(expense("alice", 1, 100)), Ok(()));
    assert_eq!(store.get_expenses(1).unwrap()[0].id, Some(1));
}

#[test]
fn add_expense_for_a_group_without_members_is_invalid() {
    let mut store = ready_store();
    store.add_group(group("trip", "ghost")).unwrap();
    assert_eq!(store.add_expense(expense("ghost", 1, 100)), Err(DataError::InvalidInput));
    assert_eq!(store.add_expense(expense("ghost", 1, 0)), Err(DataError::InvalidInput));
    assert!(store.get_expenses(1).unwrap().is_empty());
}

#[test]
fn shares_of_an_uneven_expense_sum_to_the_amount() {
    let mut store = ready_store();
    for id in ["alice", "bob", "carol"] {
        store.add_user(user(id)).unwrap();
    }
    store.add_group(group("trip", "alice")).unwrap();
    store.add_user_to_group(1, "bob".to_string()).unwrap();
    store.add_user_to_group(1, "carol".to_string()).unwrap();
    assert_eq!(store.add_expense(expense("bob", 1, 10)), Ok(()));
    let rows = store.get_shares(1).unwrap();
    assert_eq!(
        shares(&rows),
        vec![("alice".to_string(), 1, 4), ("bob".to_string(), 1, 3), ("carol".to_string(), 1, 3)]
    );
    assert_eq!(rows.iter().map(|row| row.split).sum::<u32>(), 10);
}

#[test]
fn stored_expense_carries_its_identity_and_fields() {
    let mut store = ready_store();
    store.add_user(user("alice")).unwrap();
    store.add_group(group("trip", "alice")).unwrap();
    let mut given = Expense::new("alice".into(), 1, 250, "fuel".into(), "A1".into());
    given.id = Some(99);
    store.add_expense(given).unwrap();
    store.add_expense(expense("alice", 1, 40)).unwrap();
    let found = store.get_expenses(1).unwrap();
    assert_eq!(found.len(), 2);
    assert_eq!(found[0].id, Some(1));
    assert_eq!(found[0].added_by, "alice");
    assert_eq!(found[0].group, 1);
    assert_eq!(found[0].amount, 250);
    assert_eq!(found[0].title, "fuel");
    assert_eq!(found[0].description, "A1");
    assert_eq!(found[0].split_type, 0);
    assert_eq!(found[1].id, Some(2));
    assert_eq!(found[1].amount, 40);
    assert_eq!(shares(&store.get_shares(2).unwrap()), vec![("alice".to_string(), 2, 40)]);
}

#[test]
fn expenses_are_listed_by_group() {
    let mut store = ready_store();
    store.add_user(user("alice")).unwrap();
    store.add_group(group("one", "alice")).unwrap();
    store.add_group(group("two", "alice")).unwrap();
    store.add_expense(expense("alice", 1, 10)).unwrap();
    store.add_expense(expense("alice", 2, 20)).unwrap();
    store.add_expense(expense("alice", 1, 30)).unwrap();
    let of_one: Vec<u32> = store.get_expenses(1).unwrap().iter().map(|e| e.amount).collect();
    let of_two: Vec<u32> = store.get_expenses(2).unwrap().iter().map(|e| e.amount).collect();
    assert_eq!(of_one, vec![10, 30]);
    assert_eq!(of_two, vec![20]);
    assert!(store.get_expenses(3).unwrap().is_empty());
}

#[test]
fn deleted_expense_is_gone_with_its_shares() {
    let mut store = ready_store();
    store.add_user(user("alice")).unwrap();
    store.add_user(user("bob")).unwrap();
    store.add_group(group("trip", "alice")).unwrap();
    store.add_user_to_group(1, "bob".to_string()).unwrap();
    store.add_expense(expense("alice", 1, 9)).unwrap();
    store.add_expense(expense("bob", 1, 7)).unwrap();
    assert_eq!(store.delete_expense(1), Ok(()));
    assert!(store.get_shares(1).unwrap().is_empty());
    let left = store.get_expenses(1).unwrap();
    assert_eq!(left.len(), 1);
    assert_eq!(left[0].id, Some(2));
    assert_eq!(
        shares(&store.get_shares(2).unwrap()),
        vec![("alice".to_string(), 2, 4), ("bob".to_string(), 2, 3)]
    );
    assert_eq!(store.delete_expense(1), Ok(()));
    assert_eq!(store.delete_expense(42), Ok(()));
    assert_eq!(store.get_expenses(1).unwrap().len(), 1);
}

#[test]
fn shares_outlive_the_members_they_were_computed_for() {
    let mut store = ready_store();
    store.add_user(user("alice")).unwrap();
    store.add_user(user("bob")).unwrap();
    store.add_group(group("trip", "alice")).unwrap();
    store.add_user_to_group(1, "bob".to_string()).unwrap();
    store.add_expense(expense("alice", 1, 5)).unwrap();
    store.remove_user_from_group(1, "bob".to_string()).unwrap();
    store.delete_user("bob".to_string()).unwrap();
    let rows = store.get_shares(1).unwrap();
    assert_eq!(shares(&rows), vec![("alice".to_string(), 1, 3), ("bob".to_string(), 1, 2)]);
    // a later expense is split among those who are members then
    store.add_expense(expense("alice", 1, 5)).unwrap();
    assert_eq!(shares(&store.get_shares(2).unwrap()), vec![("alice".to_string(), 2, 5)]);
}

#[test]
fn get_membership_lists_the_pairs_of_a_user() {
    let mut store = ready_store();
    store.add_user(user("alice")).unwrap();
    store.add_user(user("bob")).unwrap();
    store.add_group(group("one", "alice")).unwrap();
    store.add_group(group("two", "bob")).unwrap();
    store.add_user_to_group(2, "alice".to_string()).unwrap();
    assert_eq!(
        pairs(&store.get_membership("alice".to_string()).unwrap()),
        vec![("alice".to_string(), 1), ("alice".to_string(), 2)]
    );
    assert_eq!(pairs(&store.get_membership("bob".to_string()).unwrap()), vec![("bob".to_string(), 2)]);
    assert!(store.get_membership("carol".to_string()).unwrap().is_empty());
}

#[test]
fn trip_of_alice_and_bob() {
    let mut store = ready_store();
    store.add_user(user("alice")).unwrap();
    store.add_group(group("trip", "alice")).unwrap();
    let trip = last_group_of(&store, "alice");
    assert_eq!(ids(&store.get_group_members(trip).unwrap()), vec!["alice".to_string()]);
    store.add_user(user("bob")).unwrap();
    store.add_user_to_group(trip, "bob".to_string()).unwrap();
    assert_eq!(store.get_group_members(trip).unwrap().len(), 2);
    assert_eq!(store.add_expense(expense("alice", trip, 100)), Ok(()));
    let expenses = store.get_expenses(trip).unwrap();
    assert_eq!(expenses.len(), 1);
    assert_eq!(expenses[0].amount, 100);
    let id = expenses[0].id.unwrap();
    assert_eq!(
        shares(&store.get_shares(id).unwrap()),
        vec![("alice".to_string(), id, 50), ("bob".to_string(), id, 50)]
    );
}
