use entelur::error::DataError;
use entelur::gate::{Access, Gate, Operation};

#[test]
fn gate_needs_a_permit() {
    assert_eq!(Gate::new(0).err(), Some(DataError::InvalidInput));
    assert!(Gate::new(1).is_ok());
    assert!(Gate::new(5).unwrap().is_idle());
}

#[test]
fn readers_share_up_to_the_budget() {
    let mut gate = Gate::new(2).unwrap();
    assert_eq!(gate.acquire(Access::Read), Ok(()));
    assert_eq!(gate.acquire(Access::Read), Ok(()));
    assert_eq!(gate.acquire(Access::Read), Err(DataError::IoOrEngineFailure));
    assert!(gate.release(Access::Read));
    assert_eq!(gate.acquire(Access::Read), Ok(()));
    assert!(!gate.is_idle());
}

#[test]
fn writer_excludes_everyone() {
    let mut gate = Gate::new(3).unwrap();
    assert_eq!(gate.acquire(Access::Write), Ok(()));
    assert_eq!(gate.acquire(Access::Write), Err(DataError::IoOrEngineFailure));
    assert_eq!(gate.acquire(Access::Read), Err(DataError::IoOrEngineFailure));
    assert!(gate.release(Access::Write));
    assert!(gate.is_idle());
    assert_eq!(gate.acquire(Access::Read), Ok(()));
}

#[test]
fn readers_exclude_a_writer() {
    let mut gate = Gate::new(3).unwrap();
    assert_eq!(gate.acquire(Access::Read), Ok(()));
    assert_eq!(gate.acquire(Access::Write), Err(DataError::IoOrEngineFailure));
    assert!(gate.release(Access::Read));
    assert_eq!(gate.acquire(Access::Write), Ok(()));
}

#[test]
fn release_without_a_permit_changes_nothing() {
    let mut gate = Gate::new(1).unwrap();
    assert!(!gate.release(Access::Read));
    assert!(!gate.release(Access::Write));
    assert!(gate.is_idle());
    gate.acquire(Access::Read).unwrap();
    assert!(!gate.release(Access::Write));
    assert!(gate.release(Access::Read));
    assert!(!gate.release(Access::Read));
    assert!(gate.is_idle());
}

#[test]
fn acquire_then_release_restores_the_gate() {
    let mut gate = Gate::new(1).unwrap();
    for access in [Access::Read, Access::Write, Access::Read] {
        assert_eq!(gate.acquire(access), Ok(()));
        assert!(gate.release(access));
        assert!(gate.is_idle());
    }
}

#[test]
fn queries_read_and_everything_else_writes() {
    let queries = [
        Operation::GetUser,
        Operation::GetGroup,
        Operation::GetGroupMembers,
        Operation::GetExpenses,
        Operation::GetShares,
        Operation::GetMembership,
    ];
    for operation in queries {
        assert_eq!(operation.access(), Access::Read);
    }
    let writes = [
        Operation::Migrate,
        Operation::AddUser,
        Operation::AddGroup,
        Operation::AddUserToGroup,
        Operation::AddExpense,
        Operation::RemoveUserFromGroup,
        Operation::DeleteGroup,
        Operation::DeleteUser,
        Operation::DeleteExpense,
    ];
    for operation in writes {
        assert_eq!(operation.access(), Access::Write);
    }
}
