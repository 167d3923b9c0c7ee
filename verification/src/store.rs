//! The storage engine over tables held in memory.

use vstd::prelude::*;
use crate::datamodel::{
    views, Datamodel, Expense, ExpenseView, Group, GroupId, GroupMembership, GroupMembershipView,
    GroupView, User, UserExpenses, UserExpensesView, UserId, UserView,
};
use crate::error::DataError;
use crate::invariants::{
    lemma_add_expense_wf, lemma_add_group_wf, lemma_add_user_to_group_wf, lemma_add_user_wf,
    lemma_delete_expense_wf, lemma_delete_group_wf, lemma_delete_user_wf, lemma_fresh_wf,
    lemma_remove_user_from_group_wf,
};
use crate::migrations::{
    engine_migrations, lemma_engine_migrations, lemma_migrated_reaches_highest,
    lemma_migration_succeeds, max_version, migrated, migration_list, records_or_none, MigrationData,
    MigrationLog, SCHEMA_VERSION,
};
use crate::sequences::{lemma_filter_first, lemma_filter_none, lemma_filter_step};
use crate::split::{calculate_split, share_views};
use crate::tables::{
    expense_in, expense_is_not, group_is, group_is_not, has_group, has_user, is_member, joined,
    membership_is_not, membership_not_in, membership_not_of, membership_of, share_not_of, share_of,
    shares_for,
    user_is, user_is_not, Tables,
};

verus! {

/// A store of the ledger: the five tables, the counters from which new
/// identities are taken, and the metadata table of the schema.
pub struct Store {
    users: Vec<User>,
    groups: Vec<Group>,
    memberships: Vec<GroupMembership>,
    expenses: Vec<Expense>,
    shares: Vec<UserExpenses>,
    last_group_id: u32,
    last_expense_id: u32,
    migrations: MigrationLog,
}

impl View for Store {
    type V = Tables;

    closed spec fn view(&self) -> Tables {
        Tables {
            users: views(self.users@),
            groups: views(self.groups@),
            memberships: views(self.memberships@),
            expenses: views(self.expenses@),
            shares: views(self.shares@),
            last_group_id: self.last_group_id,
            last_expense_id: self.last_expense_id,
            migrations: self.migrations@,
        }
    }
}

/// The views of two tables, one after the other, are the views of the one
/// and then those of the other.
proof fn lemma_views_add<T: View>(first: Seq<T>, second: Seq<T>)
    ensures
        views(first + second) == views(first) + views(second),
{
    assert(views(first + second) =~= views(first) + views(second));
}

/// Of no rows a filter keeps none.
proof fn lemma_filter_start<A>(rows: Seq<A>, keep: spec_fn(A) -> bool)
    ensures
        rows.take(0).filter(keep) == Seq::<A>::empty(),
{
    lemma_filter_none(rows.take(0), keep);
}

/// The views of a table that grew by one record are the views it had, and
/// the view of that record.
proof fn lemma_views_push<T: View>(table: Seq<T>, record: T)
    ensures
        views(table.push(record)) == views(table).push(record@),
{
    assert(views(table.push(record)) =~= views(table).push(record@));
}

impl Store {
    /// A fresh store: no rows, and no schema until it is migrated.
    pub fn new() -> (store: Store)
        ensures
            store@ == Tables::fresh(),
            store@.wf(),
    {
        let store = Store {
            users: Vec::new(),
            groups: Vec::new(),
            memberships: Vec::new(),
            expenses: Vec::new(),
            shares: Vec::new(),
            last_group_id: 0,
            last_expense_id: 0,
            migrations: MigrationLog::new(),
        };
        proof {
            lemma_fresh_wf();
            assert(store@ =~= Tables::fresh());
        }
        store
    }

    /// Brings the schema of the store up to the version of this engine,
    /// stamping what it applies with `now`, the seconds since the Unix
    /// epoch. This has to succeed before any other operation is used:
    /// until then every operation reports a failure of the engine.
    ///
    /// With nothing pending the store stays as it is. The rows of the five
    /// tables are never touched.
    pub fn migrate_database(&mut self, now: i64) -> (outcome: Result<(), DataError>)
        requires
            old(self)@.wf(),
        ensures
            final(self)@.wf(),
            final(self)@.migrations is Some,
            final(self)@ == (Tables { migrations: final(self)@.migrations, ..old(self)@ }),
            outcome is Ok <==> max_version(records_or_none(old(self)@.migrations)) <= SCHEMA_VERSION,
            match outcome {
                Ok(()) => migrated(old(self)@.migrations, engine_migrations(), now) == Ok::<
                    Seq<MigrationData>,
                    DataError,
                >(final(self)@.migrations.unwrap()) && final(self)@.ready(),
                Err(e) => e == DataError::IoOrEngineFailure && migrated(
                    old(self)@.migrations,
                    engine_migrations(),
                    now,
                ) is Err && final(self)@.migrations == Some(records_or_none(old(self)@.migrations)),
            },
    {
        let available = migration_list();
        let outcome = self.migrations.migrate(&available, now);
        proof {
            lemma_engine_migrations();
            lemma_migration_succeeds(old(self)@.migrations, engine_migrations(), now);
            if outcome is Ok {
                lemma_migrated_reaches_highest(
                    old(self)@.migrations,
                    engine_migrations(),
                    now,
                );
            }
        }
        outcome
    }

    /// The shares of the expense `expense_id`, one for each member the
    /// expense was split among, in the order of the members.
    pub fn get_shares(&self, expense_id: u32) -> (found: Result<Vec<UserExpenses>, DataError>)
        requires
            self@.wf(),
        ensures
            match found {
                Ok(shares) => self@.get_shares(expense_id) == Ok::<Seq<UserExpensesView>, DataError>(
                    views(shares@),
                ),
                Err(e) => self@.get_shares(expense_id) == Err::<Seq<UserExpensesView>, DataError>(e),
            },
    {
        if !self.is_ready() {
            return Err(DataError::IoOrEngineFailure);
        }
        let ghost rows = self@.shares;
        let ghost keep = share_of(expense_id);
        let mut shares_list: Vec<UserExpenses> = Vec::new();
        let mut i: usize = 0;
        proof {
            lemma_filter_start(rows, keep);
            assert(views(shares_list@) =~= Seq::<UserExpensesView>::empty());
        }
        while i < self.shares.len()
            invariant
                i <= self.shares.len(),
                rows == self@.shares,
                keep == share_of(expense_id),
                views(shares_list@) == rows.take(i as int).filter(keep),
            decreases self.shares.len() - i,
        {
            proof {
                lemma_filter_step(rows, keep, i as int);
                assert(rows[i as int] == self.shares@[i as int]@);
            }
            if self.shares[i].expenses_id == expense_id {
                proof {
                    lemma_views_push(shares_list@, self.shares@[i as int]);
                }
                shares_list.push(self.shares[i].clone());
            }
            i = i + 1;
        }
        proof {
            assert(rows.take(self.shares.len() as int) =~= rows);
        }
        Ok(shares_list)
    }

    /// Whether the schema is in place.
    fn is_ready(&self) -> (ready: bool)
        requires
            self@.wf(),
        ensures
            ready == self@.ready(),
    {
        match self.migrations.get_latest_migration() {
            Ok(Some(record)) => record.version == SCHEMA_VERSION,
            Ok(None) => false,
            Err(_) => false,
        }
    }

    /// The place of the first user with the identity `user_id`.
    fn find_user(&self, user_id: &String) -> (place: Option<usize>)
        ensures
            match place {
                Some(i) => i < self.users@.len() && self.users@[i as int].user_id@ == user_id@
                    && forall|j: int| 0 <= j < i ==> (#[trigger] self.users@[j]).user_id@ != user_id@,
                None => !has_user(self@.users, user_id@),
            },
    {
        let mut i: usize = 0;
        while i < self.users.len()
            invariant
                i <= self.users.len(),
                forall|j: int| 0 <= j < i ==> (#[trigger] self.users@[j]).user_id@ != user_id@,
            decreases self.users.len() - i,
        {
            if self.users[i].user_id == *user_id {
                return Some(i);
            }
            i = i + 1;
        }
        proof {
            assert forall|j: int| 0 <= j < self@.users.len() implies (#[trigger] self@.users[j]).user_id
                != user_id@ by {
                assert(self.users@[j].user_id@ != user_id@);
            }
        }
        None
    }

    /// The place of the first group with the identity `group_id`.
    fn find_group(&self, group_id: GroupId) -> (place: Option<usize>)
        ensures
            match place {
                Some(i) => i < self.groups@.len() && self.groups@[i as int].group_id == group_id
                    && forall|j: int| 0 <= j < i ==> (#[trigger] self.groups@[j]).group_id != group_id,
                None => !has_group(self@.groups, group_id),
            },
    {
        let mut i: usize = 0;
        while i < self.groups.len()
            invariant
                i <= self.groups.len(),
                forall|j: int| 0 <= j < i ==> (#[trigger] self.groups@[j]).group_id != group_id,
            decreases self.groups.len() - i,
        {
            if self.groups[i].group_id == group_id {
                return Some(i);
            }
            i = i + 1;
        }
        proof {
            assert forall|j: int| 0 <= j < self@.groups.len() implies (
            #[trigger] self@.groups[j]).group_id != group_id by {
                assert(self.groups@[j].group_id != group_id);
            }
        }
        None
    }

    /// Whether one of the first `upto` memberships joins the user to the
    /// group.
    fn joins_before(&self, upto: usize, user_id: &String, group_id: GroupId) -> (joined: bool)
        requires
            upto <= self.memberships@.len(),
        ensures
            joined == is_member(self@.memberships.take(upto as int), user_id@, group_id),
    {
        let ghost earlier = self@.memberships.take(upto as int);
        let mut i: usize = 0;
        while i < upto
            invariant
                i <= upto <= self.memberships@.len(),
                earlier == self@.memberships.take(upto as int),
                forall|j: int|
                    0 <= j < i ==> !((#[trigger] self.memberships@[j]).user_id@ == user_id@
                        && self.memberships@[j].group_id == group_id),
            decreases upto - i,
        {
            if self.memberships[i].group_id == group_id && self.memberships[i].user_id == *user_id {
                assert(earlier[i as int].user_id == user_id@ && earlier[i as int].group_id == group_id);
                return true;
            }
            i = i + 1;
        }
        proof {
            assert forall|j: int| 0 <= j < earlier.len() implies !((#[trigger] earlier[j]).user_id
                == user_id@ && earlier[j].group_id == group_id) by {
                assert(!(self.memberships@[j].user_id@ == user_id@ && self.memberships@[j].group_id
                    == group_id));
            }
        }
        false
    }

    /// The users joined to the group, in the order in which they joined.
    fn members_of(&self, group_id: GroupId) -> (members_list: Vec<User>)
        ensures
            views(members_list@) == self@.members(group_id),
    {
        let ghost users = self@.users;
        let ghost rows = self@.memberships;
        let mut members_list: Vec<User> = Vec::new();
        let mut i: usize = 0;
        proof {
            assert(views(members_list@) =~= joined(users, rows.take(0), group_id));
        }
        while i < self.memberships.len()
            invariant
                i <= self.memberships.len(),
                users == self@.users,
                rows == self@.memberships,
                views(members_list@) == joined(users, rows.take(i as int), group_id),
            decreases self.memberships.len() - i,
        {
            proof {
                assert(rows.take(i + 1).drop_last() =~= rows.take(i as int));
                assert(rows.take(i + 1).last() == self.memberships@[i as int]@);
            }
            if self.memberships[i].group_id == group_id && !self.joins_before(
                i,
                &self.memberships[i].user_id,
                group_id,
            ) {
                match self.find_user(&self.memberships[i].user_id) {
                    Some(place) => {
                        proof {
                            let user_id = self.memberships@[i as int].user_id@;
                            assert(users[place as int] == self.users@[place as int]@);
                            assert forall|j: int| 0 <= j < place implies !user_is(user_id)(
                                #[trigger] users[j],
                            ) by {
                                assert(self.users@[j].user_id@ != user_id);
                            }
                            lemma_filter_first(users, user_is(user_id), place as int);
                            lemma_views_push(members_list@, self.users@[place as int]);
                        }
                        members_list.push(self.users[place].clone());
                    },
                    None => {},
                }
            }
            i = i + 1;
        }
        proof {
            assert(rows.take(self.memberships.len() as int) =~= rows);
        }
        members_list
    }

    /// The users but the one with the identity `user_id`.
    fn users_without(&self, user_id: &String) -> (kept: Vec<User>)
        ensures
            views(kept@) == self@.users.filter(user_is_not(user_id@)),
    {
        let ghost rows = self@.users;
        let ghost keep = user_is_not(user_id@);
        let mut kept: Vec<User> = Vec::new();
        let mut i: usize = 0;
        proof {
            lemma_filter_start(rows, keep);
            assert(views(kept@) =~= Seq::<UserView>::empty());
        }
        while i < self.users.len()
            invariant
                i <= self.users.len(),
                rows == self@.users,
                keep == user_is_not(user_id@),
                views(kept@) == rows.take(i as int).filter(keep),
            decreases self.users.len() - i,
        {
            proof {
                lemma_filter_step(rows, keep, i as int);
                assert(rows[i as int] == self.users@[i as int]@);
            }
            if self.users[i].user_id != *user_id {
                proof {
                    lemma_views_push(kept@, self.users@[i as int]);
                }
                kept.push(self.users[i].clone());
            }
            i = i + 1;
        }
        proof {
            assert(rows.take(self.users.len() as int) =~= rows);
        }
        kept
    }

    /// The groups but the one with the identity `group_id`.
    fn groups_without(&self, group_id: GroupId) -> (kept: Vec<Group>)
        ensures
            views(kept@) == self@.groups.filter(group_is_not(group_id)),
    {
        let ghost rows = self@.groups;
        let ghost keep = group_is_not(group_id);
        let mut kept: Vec<Group> = Vec::new();
        let mut i: usize = 0;
        proof {
            lemma_filter_start(rows, keep);
            assert(views(kept@) =~= Seq::<GroupView>::empty());
        }
        while i < self.groups.len()
            invariant
                i <= self.groups.len(),
                rows == self@.groups,
                keep == group_is_not(group_id),
                views(kept@) == rows.take(i as int).filter(keep),
            decreases self.groups.len() - i,
        {
            proof {
                lemma_filter_step(rows, keep, i as int);
                assert(rows[i as int] == self.groups@[i as int]@);
            }
            if self.groups[i].group_id != group_id {
                proof {
                    lemma_views_push(kept@, self.groups@[i as int]);
                }
                kept.push(self.groups[i].clone());
            }
            i = i + 1;
        }
        proof {
            assert(rows.take(self.groups.len() as int) =~= rows);
        }
        kept
    }

    /// The memberships that pass the test that `which` names: those of the
    /// user, those of everyone else, those in every other group, or all but
    /// those of the user in the group.
    fn select_memberships(&self, which: Selection, user_id: &String, group_id: GroupId) -> (kept: Vec<
        GroupMembership,
    >)
        ensures
            views(kept@) == self@.memberships.filter(which.test(user_id@, group_id)),
    {
        let ghost rows = self@.memberships;
        let ghost keep = which.test(user_id@, group_id);
        let mut kept: Vec<GroupMembership> = Vec::new();
        let mut i: usize = 0;
        proof {
            lemma_filter_start(rows, keep);
            assert(views(kept@) =~= Seq::<GroupMembershipView>::empty());
        }
        while i < self.memberships.len()
            invariant
                i <= self.memberships.len(),
                rows == self@.memberships,
                keep == which.test(user_id@, group_id),
                views(kept@) == rows.take(i as int).filter(keep),
            decreases self.memberships.len() - i,
        {
            proof {
                lemma_filter_step(rows, keep, i as int);
                assert(rows[i as int] == self.memberships@[i as int]@);
            }
            let same_user = self.memberships[i].user_id == *user_id;
            let same_group = self.memberships[i].group_id == group_id;
            let passes = match which {
                Selection::OfUser => same_user,
                Selection::NotOfUser => !same_user,
                Selection::NotInGroup => !same_group,
                Selection::NotThePair => !(same_user && same_group),
            };
            if passes {
                proof {
                    lemma_views_push(kept@, self.memberships@[i as int]);
                }
                kept.push(self.memberships[i].clone());
            }
            i = i + 1;
        }
        proof {
            assert(rows.take(self.memberships.len() as int) =~= rows);
        }
        kept
    }

    /// The expenses but the one with the identity `expense_id`.
    fn expenses_without(&self, expense_id: u32) -> (kept: Vec<Expense>)
        ensures
            views(kept@) == self@.expenses.filter(expense_is_not(expense_id)),
    {
        let ghost rows = self@.expenses;
        let ghost keep = expense_is_not(expense_id);
        let mut kept: Vec<Expense> = Vec::new();
        let mut i: usize = 0;
        proof {
            lemma_filter_start(rows, keep);
            assert(views(kept@) =~= Seq::<ExpenseView>::empty());
        }
        while i < self.expenses.len()
            invariant
                i <= self.expenses.len(),
                rows == self@.expenses,
                keep == expense_is_not(expense_id),
                views(kept@) == rows.take(i as int).filter(keep),
            decreases self.expenses.len() - i,
        {
            proof {
                lemma_filter_step(rows, keep, i as int);
                assert(rows[i as int] == self.expenses@[i as int]@);
            }
            let is_it = match self.expenses[i].id {
                Some(id) => id == expense_id,
                None => false,
            };
            if !is_it {
                proof {
                    lemma_views_push(kept@, self.expenses@[i as int]);
                }
                kept.push(self.expenses[i].clone());
            }
            i = i + 1;
        }
        proof {
            assert(rows.take(self.expenses.len() as int) =~= rows);
        }
        kept
    }

    /// The shares but those of the expense `expense_id`.
    fn shares_without(&self, expense_id: u32) -> (kept: Vec<UserExpenses>)
        ensures
            views(kept@) == self@.shares.filter(share_not_of(expense_id)),
    {
        let ghost rows = self@.shares;
        let ghost keep = share_not_of(expense_id);
        let mut kept: Vec<UserExpenses> = Vec::new();
        let mut i: usize = 0;
        proof {
            lemma_filter_start(rows, keep);
            assert(views(kept@) =~= Seq::<UserExpensesView>::empty());
        }
        while i < self.shares.len()
            invariant
                i <= self.shares.len(),
                rows == self@.shares,
                keep == share_not_of(expense_id),
                views(kept@) == rows.take(i as int).filter(keep),
            decreases self.shares.len() - i,
        {
            proof {
                lemma_filter_step(rows, keep, i as int);
                assert(rows[i as int] == self.shares@[i as int]@);
            }
            if self.shares[i].expenses_id != expense_id {
                proof {
                    lemma_views_push(kept@, self.shares@[i as int]);
                }
                kept.push(self.shares[i].clone());
            }
            i = i + 1;
        }
        proof {
            assert(rows.take(self.shares.len() as int) =~= rows);
        }
        kept
    }
}

/// Which memberships a selection keeps.
#[derive(Clone, Copy)]
enum Selection {
    OfUser,
    NotOfUser,
    NotInGroup,
    NotThePair,
}

impl Selection {
    /// The test that the selection stands for.
    spec fn test(self, user_id: Seq<char>, group_id: GroupId) -> spec_fn(GroupMembershipView) -> bool {
        match self {
            Selection::OfUser => membership_of(user_id),
            Selection::NotOfUser => membership_not_of(user_id),
            Selection::NotInGroup => membership_not_in(group_id),
            Selection::NotThePair => membership_is_not(user_id, group_id),
        }
    }
}

/// The share rows that record a split for the expense `expense_id`.
fn share_rows(expense_id: u32, split: &Vec<(String, u32)>) -> (rows: Vec<UserExpenses>)
    ensures
        views(rows@) == shares_for(expense_id, share_views(split@)),
{
    let ghost expected = shares_for(expense_id, share_views(split@));
    let mut rows: Vec<UserExpenses> = Vec::new();
    let mut i: usize = 0;
    proof {
        assert(views(rows@) =~= expected.take(0));
    }
    while i < split.len()
        invariant
            i <= split.len(),
            expected == shares_for(expense_id, share_views(split@)),
            views(rows@) == expected.take(i as int),
        decreases split.len() - i,
    {
        let ghost before = rows@;
        let row = UserExpenses {
            user_id: split[i].0.clone(),
            expenses_id: expense_id,
            split: split[i].1,
        };
        proof {
            lemma_views_push(rows@, row);
            assert(share_views(split@)[i as int] == (split@[i as int].0@, split@[i as int].1));
            assert(expected.take(i + 1) =~= expected.take(i as int).push(row@));
        }
        rows.push(row);
        i = i + 1;
    }
    proof {
        assert(expected.take(split.len() as int) =~= expected);
    }
    rows
}

impl Datamodel for Store {
    open spec fn tables(&self) -> Tables {
        self@
    }

    fn add_user(&mut self, user: User) -> (added: Result<(), DataError>) {
        if !self.is_ready() {
            return Err(DataError::IoOrEngineFailure);
        }
        match self.find_user(&user.user_id) {
            Some(i) => {
                assert(self@.users[i as int].user_id == user@.user_id);
                return Err(DataError::Conflict);
            },
            None => {},
        }
        proof {
            lemma_add_user_wf(self@, user@);
            lemma_views_push(self.users@, user);
        }
        self.users.push(user);
        proof {
            assert(self@ =~= old(self)@.add_user(user@)->Ok_0);
        }
        Ok(())
    }

    fn add_group(&mut self, group: Group) -> (added: Result<(), DataError>) {
        if !self.is_ready() || self.last_group_id == u32::MAX {
            return Err(DataError::IoOrEngineFailure);
        }
        let group_id: u32 = self.last_group_id + 1;
        let membership = GroupMembership { user_id: group.created_by.clone(), group_id };
        let stored = Group {
            group_id,
            name: group.name,
            description: group.description,
            created_by: group.created_by,
        };
        proof {
            lemma_add_group_wf(self@, group@);
            lemma_views_push(self.groups@, stored);
            lemma_views_push(self.memberships@, membership);
        }
        self.groups.push(stored);
        self.memberships.push(membership);
        self.last_group_id = group_id;
        proof {
            assert(self@ =~= old(self)@.add_group(group@)->Ok_0);
        }
        Ok(())
    }

    fn add_user_to_group(&mut self, group_id: GroupId, user_id: UserId) -> (added: Result<
        (),
        DataError,
    >) {
        if !self.is_ready() {
            return Err(DataError::IoOrEngineFailure);
        }
        match self.find_group(group_id) {
            None => {
                return Err(DataError::NotFound);
            },
            Some(i) => {
                assert(self@.groups[i as int].group_id == group_id);
            },
        }
        let membership = GroupMembership { user_id, group_id };
        proof {
            lemma_add_user_to_group_wf(self@, group_id, user_id@);
            lemma_views_push(self.memberships@, membership);
        }
        self.memberships.push(membership);
        proof {
            assert(self@ =~= old(self)@.add_user_to_group(group_id, user_id@)->Ok_0);
        }
        Ok(())
    }

    fn add_expense(&mut self, expense: Expense) -> (added: Result<(), DataError>) {
        if !self.is_ready() {
            return Err(DataError::IoOrEngineFailure);
        }
        match self.find_group(expense.group) {
            None => {
                return Err(DataError::NotFound);
            },
            Some(i) => {
                assert(self@.groups[i as int].group_id == expense.group);
            },
        }
        let users = self.members_of(expense.group);
        let split = match calculate_split(&expense, users.as_slice()) {
            Ok(split) => split,
            Err(e) => {
                return Err(e);
            },
        };
        if self.last_expense_id == u32::MAX {
            return Err(DataError::IoOrEngineFailure);
        }
        let id: u32 = self.last_expense_id + 1;
        let mut rows = share_rows(id, &split);
        let stored = Expense {
            id: Some(id),
            added_by: expense.added_by,
            group: expense.group,
            amount: expense.amount,
            title: expense.title,
            description: expense.description,
            split_type: expense.split_type,
        };
        proof {
            lemma_add_expense_wf(self@, expense@);
            lemma_views_push(self.expenses@, stored);
            lemma_views_add(self.shares@, rows@);
        }
        self.expenses.push(stored);
        self.shares.append(&mut rows);
        self.last_expense_id = id;
        proof {
            assert(self@ =~= old(self)@.add_expense(expense@)->Ok_0);
        }
        Ok(())
    }

    fn get_user(&self, user_id: UserId) -> (found: Result<User, DataError>) {
        if !self.is_ready() {
            return Err(DataError::IoOrEngineFailure);
        }
        match self.find_user(&user_id) {
            None => Err(DataError::NotFound),
            Some(i) => {
                proof {
                    let rows = self@.users;
                    assert(rows[i as int] == self.users@[i as int]@);
                    assert forall|j: int| 0 <= j < i implies !user_is(user_id@)(#[trigger] rows[j]) by {
                        assert(self.users@[j].user_id@ != user_id@);
                    }
                    lemma_filter_first(rows, user_is(user_id@), i as int);
                }
                Ok(self.users[i].clone())
            },
        }
    }

    fn get_group(&self, group_id: GroupId) -> (found: Result<Group, DataError>) {
        if !self.is_ready() {
            return Err(DataError::IoOrEngineFailure);
        }
        match self.find_group(group_id) {
            None => Err(DataError::NotFound),
            Some(i) => {
                proof {
                    let rows = self@.groups;
                    assert(rows[i as int] == self.groups@[i as int]@);
                    assert forall|j: int| 0 <= j < i implies !group_is(group_id)(#[trigger] rows[j]) by {
                        assert(self.groups@[j].group_id != group_id);
                    }
                    lemma_filter_first(rows, group_is(group_id), i as int);
                }
                Ok(self.groups[i].clone())
            },
        }
    }

    fn get_group_members(&self, group_id: GroupId) -> (found: Result<Vec<User>, DataError>) {
        if !self.is_ready() {
            return Err(DataError::IoOrEngineFailure);
        }
        Ok(self.members_of(group_id))
    }

    fn get_expenses(&self, group_id: GroupId) -> (found: Result<Vec<Expense>, DataError>) {
        if !self.is_ready() {
            return Err(DataError::IoOrEngineFailure);
        }
        let ghost rows = self@.expenses;
        let ghost keep = expense_in(group_id);
        let mut expenses_list: Vec<Expense> = Vec::new();
        let mut i: usize = 0;
        proof {
            lemma_filter_start(rows, keep);
            assert(views(expenses_list@) =~= Seq::<ExpenseView>::empty());
        }
        while i < self.expenses.len()
            invariant
                i <= self.expenses.len(),
                rows == self@.expenses,
                keep == expense_in(group_id),
                views(expenses_list@) == rows.take(i as int).filter(keep),
            decreases self.expenses.len() - i,
        {
            proof {
                lemma_filter_step(rows, keep, i as int);
                assert(rows[i as int] == self.expenses@[i as int]@);
            }
            if self.expenses[i].group == group_id {
                proof {
                    lemma_views_push(expenses_list@, self.expenses@[i as int]);
                }
                expenses_list.push(self.expenses[i].clone());
            }
            i = i + 1;
        }
        proof {
            assert(rows.take(self.expenses.len() as int) =~= rows);
        }
        Ok(expenses_list)
    }

    fn remove_user_from_group(&mut self, group_id: GroupId, user_id: UserId) -> (removed: Result<
        (),
        DataError,
    >) {
        if !self.is_ready() {
            return Err(DataError::IoOrEngineFailure);
        }
        let kept = self.select_memberships(Selection::NotThePair, &user_id, group_id);
        proof {
            lemma_remove_user_from_group_wf(self@, group_id, user_id@);
        }
        self.memberships = kept;
        proof {
            assert(self@ =~= old(self)@.remove_user_from_group(group_id, user_id@)->Ok_0);
        }
        Ok(())
    }

    fn delete_group(&mut self, group_id: GroupId) -> (deleted: Result<(), DataError>) {
        if !self.is_ready() {
            return Err(DataError::IoOrEngineFailure);
        }
        let nobody = String::new();
        let kept_memberships = self.select_memberships(Selection::NotInGroup, &nobody, group_id);
        let kept_groups = self.groups_without(group_id);
        proof {
            lemma_delete_group_wf(self@, group_id);
        }
        self.memberships = kept_memberships;
        self.groups = kept_groups;
        proof {
            assert(self@ =~= old(self)@.delete_group(group_id)->Ok_0);
        }
        Ok(())
    }

    fn delete_user(&mut self, user_id: UserId) -> (deleted: Result<(), DataError>) {
        if !self.is_ready() {
            return Err(DataError::IoOrEngineFailure);
        }
        let kept_memberships = self.select_memberships(Selection::NotOfUser, &user_id, 0);
        let kept_users = self.users_without(&user_id);
        proof {
            lemma_delete_user_wf(self@, user_id@);
        }
        self.memberships = kept_memberships;
        self.users = kept_users;
        proof {
            assert(self@ =~= old(self)@.delete_user(user_id@)->Ok_0);
        }
        Ok(())
    }

    fn delete_expense(&mut self, expense_id: u32) -> (deleted: Result<(), DataError>) {
        if !self.is_ready() {
            return Err(DataError::IoOrEngineFailure);
        }
        let kept_shares = self.shares_without(expense_id);
        let kept_expenses = self.expenses_without(expense_id);
        proof {
            lemma_delete_expense_wf(self@, expense_id);
        }
        self.shares = kept_shares;
        self.expenses = kept_expenses;
        proof {
            assert(self@ =~= old(self)@.delete_expense(expense_id)->Ok_0);
        }
        Ok(())
    }

    fn get_membership(&self, user_id: UserId) -> (found: Result<Vec<GroupMembership>, DataError>) {
        if !self.is_ready() {
            return Err(DataError::IoOrEngineFailure);
        }
        Ok(self.select_memberships(Selection::OfUser, &user_id, 0))
    }
}

} // verus!
