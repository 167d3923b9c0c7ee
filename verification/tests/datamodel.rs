use entelur::datamodel::{Expense, Group, GroupMembership, User};

#[test]
fn user_new_keeps_its_fields() {
    let user = User::new("42".to_string(), "Alice".to_string(), "alice".to_string());
    assert_eq!(user.user_id, "42");
    assert_eq!(user.name, "Alice");
    assert_eq!(user.username, "alice");
}

#[test]
fn group_new_keeps_its_fields() {
    let group = Group::new(7, "trip".to_string(), "to the sea".to_string(), "42".to_string());
    assert_eq!(group.group_id, 7);
    assert_eq!(group.name, "trip");
    assert_eq!(group.description, "to the sea");
    assert_eq!(group.created_by, "42");
}

#[test]
fn membership_new_keeps_its_fields() {
    let membership = GroupMembership::new("42".to_string(), 7);
    assert_eq!(membership.user_id, "42");
    assert_eq!(membership.group_id, 7);
}

#[test]
fn expense_new_is_unsaved_and_equal() {
    let expense = Expense::new("42".to_string(), 7, 1250, "fuel".to_string(), "A1".to_string());
    assert_eq!(expense.id, None);
    assert_eq!(expense.added_by, "42");
    assert_eq!(expense.group, 7);
    assert_eq!(expense.amount, 1250);
    assert_eq!(expense.title, "fuel");
    assert_eq!(expense.description, "A1");
    assert_eq!(expense.split_type, 0);
}

#[test]
fn clones_keep_every_field() {
    let user = User::new("42".to_string(), "Alice".to_string(), "alice".to_string());
    let copy = user.clone();
    assert_eq!(copy.user_id, user.user_id);
    assert_eq!(copy.name, user.name);
    assert_eq!(copy.username, user.username);
    let expense = Expense::new("42".to_string(), 7, 1250, "fuel".to_string(), "A1".to_string());
    let copy = expense.clone();
    assert_eq!(copy.id, expense.id);
    assert_eq!(copy.amount, expense.amount);
    assert_eq!(copy.title, expense.title);
}
