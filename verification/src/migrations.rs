//! The schema migration engine.
//!
//! A store remembers which schema versions it has applied, one record for
//! each. Migrating selects from a version-ordered list the migrations above
//! the highest applied version and applies them in ascending order, all or
//! none. Migrations only go forward.

use vstd::prelude::*;
use crate::error::DataError;
use crate::sequences::{
    in_order, lemma_filter_all, lemma_filter_members, lemma_filter_none, lemma_filter_order,
};

verus! {

/// The record of one applied schema version: the version, and the time, in
/// seconds since the Unix epoch, at which it was applied.
#[derive(Debug, Clone, Copy)]
pub struct MigrationData {
    pub version: u32,
    pub last_migration_time: i64,
}

/// One step of the schema: its version and the statements that bring a store
/// from the version below to it.
#[derive(Debug, Clone, Copy)]
pub struct Migration {
    pub version: u32,
    pub sql_statements: &'static str,
}

/// The schema version that the engine's own migrations lead to.
pub const SCHEMA_VERSION: u32 = 2;

/// The statements of the first schema version: the five tables of the
/// ledger. Its columns of type STRING take a number for every text that
/// reads as one, so an identity such as "007" does not come back as it was
/// written; the second version mends that.
pub const INITIAL_SCHEMA: &'static str = "
        CREATE TABLE USER(user_id STRING PRIMARY KEY, name STRING, username STRING);
        CREATE TABLE EXPENSE_GROUP(group_id INTEGER PRIMARY KEY AUTOINCREMENT, name STRING, description STRING, created_by STRING);
        CREATE TABLE GROUP_MEMBERSHIP(user_id STRING, group_id STRING);
        CREATE TABLE EXPENSE(id INTEGER PRIMARY KEY AUTOINCREMENT,added_by STRING, group_id STRING, amount INTEGER, title STRING, description STRING, split_type INTEGER);
        CREATE TABLE USER_EXPENSES(user_id STRING, expense_id INTEGER, split INTEGER);
        ";

/// The statements of the second schema version: every table is rebuilt with
/// text columns for what is text and integer columns for what is a number.
/// The rows keep their order, and the two tables that assign identities
/// keep their counters, so that no identity is ever assigned twice.
pub const TYPED_SCHEMA: &'static str = "
        ALTER TABLE USER RENAME TO USER_V1;
        CREATE TABLE USER(user_id TEXT PRIMARY KEY, name TEXT, username TEXT);
        INSERT INTO USER(user_id, name, username)
            SELECT CAST(user_id AS TEXT), CAST(name AS TEXT), CAST(username AS TEXT)
            FROM USER_V1 ORDER BY rowid;
        DROP TABLE USER_V1;

        ALTER TABLE EXPENSE_GROUP RENAME TO EXPENSE_GROUP_V1;
        CREATE TABLE EXPENSE_GROUP(group_id INTEGER PRIMARY KEY AUTOINCREMENT, name TEXT, description TEXT, created_by TEXT);
        INSERT INTO EXPENSE_GROUP(group_id, name, description, created_by)
            SELECT group_id, CAST(name AS TEXT), CAST(description AS TEXT), CAST(created_by AS TEXT)
            FROM EXPENSE_GROUP_V1 ORDER BY group_id;
        DELETE FROM sqlite_sequence WHERE name = 'EXPENSE_GROUP';
        INSERT INTO sqlite_sequence(name, seq)
            SELECT 'EXPENSE_GROUP', seq FROM sqlite_sequence WHERE name = 'EXPENSE_GROUP_V1';
        DROP TABLE EXPENSE_GROUP_V1;

        ALTER TABLE GROUP_MEMBERSHIP RENAME TO GROUP_MEMBERSHIP_V1;
        CREATE TABLE GROUP_MEMBERSHIP(user_id TEXT, group_id INTEGER);
        INSERT INTO GROUP_MEMBERSHIP(user_id, group_id)
            SELECT CAST(user_id AS TEXT), CAST(group_id AS INTEGER)
            FROM GROUP_MEMBERSHIP_V1 ORDER BY rowid;
        DROP TABLE GROUP_MEMBERSHIP_V1;

        ALTER TABLE EXPENSE RENAME TO EXPENSE_V1;
        CREATE TABLE EXPENSE(id INTEGER PRIMARY KEY AUTOINCREMENT, added_by TEXT, group_id INTEGER, amount INTEGER, title TEXT, description TEXT, split_type INTEGER);
        INSERT INTO EXPENSE(id, added_by, group_id, amount, title, description, split_type)
            SELECT id, CAST(added_by AS TEXT), CAST(group_id AS INTEGER), amount, CAST(title AS TEXT), CAST(description AS TEXT), split_type
            FROM EXPENSE_V1 ORDER BY id;
        DELETE FROM sqlite_sequence WHERE name = 'EXPENSE';
        INSERT INTO sqlite_sequence(name, seq)
            SELECT 'EXPENSE', seq FROM sqlite_sequence WHERE name = 'EXPENSE_V1';
        DROP TABLE EXPENSE_V1;

        ALTER TABLE USER_EXPENSES RENAME TO USER_EXPENSES_V1;
        CREATE TABLE USER_EXPENSES(user_id TEXT, expense_id INTEGER, split INTEGER);
        INSERT INTO USER_EXPENSES(user_id, expense_id, split)
            SELECT CAST(user_id AS TEXT), expense_id, split
            FROM USER_EXPENSES_V1 ORDER BY rowid;
        DROP TABLE USER_EXPENSES_V1;
        ";

/// The engine's own migrations, lowest version first.
pub open spec fn engine_migrations() -> Seq<Migration> {
    seq![
        Migration { version: 1, sql_statements: INITIAL_SCHEMA },
        Migration { version: SCHEMA_VERSION, sql_statements: TYPED_SCHEMA },
    ]
}

/// The highest version among `records`, or 0 where there is none.
pub open spec fn max_version(records: Seq<MigrationData>) -> u32
    decreases records.len(),
{
    if records.len() == 0 {
        0
    } else if max_version(records.drop_last()) > records.last().version {
        max_version(records.drop_last())
    } else {
        records.last().version
    }
}

/// The highest version in `list`, or 0 where it is empty.
pub open spec fn highest_known(list: Seq<Migration>) -> u32
    decreases list.len(),
{
    if list.len() == 0 {
        0
    } else if highest_known(list.drop_last()) > list.last().version {
        highest_known(list.drop_last())
    } else {
        list.last().version
    }
}

/// The versions of `records` rise strictly from each record to the next.
pub open spec fn increasing(records: Seq<MigrationData>) -> bool {
    forall|i: int, j: int|
        0 <= i < j < records.len() ==> (#[trigger] records[i]).version < (
        #[trigger] records[j]).version
}

/// The versions of `list` rise strictly from each migration to the next.
pub open spec fn ascending(list: Seq<Migration>) -> bool {
    forall|i: int, j: int|
        0 <= i < j < list.len() ==> (#[trigger] list[i]).version < (#[trigger] list[j]).version
}

/// Every migration of `list` has a version above `floor`.
pub open spec fn all_above(list: Seq<Migration>, floor: u32) -> bool {
    forall|i: int| 0 <= i < list.len() ==> (#[trigger] list[i]).version > floor
}

/// The test that picks the migrations above `last_version`.
pub open spec fn is_pending(last_version: u32) -> spec_fn(Migration) -> bool {
    |migration: Migration| migration.version > last_version
}

/// The migrations of `list` that a store at `last_version` still lacks, in
/// the order of the list.
pub open spec fn pending(list: Seq<Migration>, last_version: u32) -> Seq<Migration> {
    list.filter(is_pending(last_version))
}

/// The record that applying `migration` at time `now` leaves.
pub open spec fn record_of(migration: Migration, now: i64) -> MigrationData {
    MigrationData { version: migration.version, last_migration_time: now }
}

/// The records that applying `batch` at time `now` leaves, one for each
/// migration, in order.
pub open spec fn records_of(batch: Seq<Migration>, now: i64) -> Seq<MigrationData> {
    batch.map_values(|migration: Migration| record_of(migration, now))
}

/// A batch can be applied on top of `records` when its versions rise
/// strictly and all lie above every recorded version.
pub open spec fn applicable(records: Seq<MigrationData>, batch: Seq<Migration>) -> bool {
    ascending(batch) && all_above(batch, max_version(records))
}

/// What applying `batch` at time `now` makes of the metadata table `log`.
///
/// Nothing, where the batch is empty. Otherwise the table gains a record for
/// each migration of the batch, in order; and the batch is refused as a
/// whole where there is no table or the batch cannot be applied on top of
/// what the table records.
pub open spec fn batch_applied(log: Option<Seq<MigrationData>>, batch: Seq<Migration>, now: i64) -> Result<
    Option<Seq<MigrationData>>,
    DataError,
> {
    if batch.len() == 0 {
        Ok(log)
    } else {
        match log {
            Some(records) => if applicable(records, batch) {
                Ok(Some(records + records_of(batch, now)))
            } else {
                Err(DataError::IoOrEngineFailure)
            },
            None => Err(DataError::IoOrEngineFailure),
        }
    }
}

/// The records of a metadata table that may not exist yet: none, then.
pub open spec fn records_or_none(log: Option<Seq<MigrationData>>) -> Seq<MigrationData> {
    match log {
        Some(records) => records,
        None => Seq::empty(),
    }
}

/// The outcome of migrating a store whose metadata table is `log` with the
/// migrations of `list` at time `now`: the records afterwards, or the failure.
///
/// Migrating fails, and applies nothing, when the store is already at a
/// version above every version of the list, or when the pending migrations
/// cannot be applied in ascending order.
pub open spec fn migrated(log: Option<Seq<MigrationData>>, list: Seq<Migration>, now: i64) -> Result<
    Seq<MigrationData>,
    DataError,
> {
    let records = records_or_none(log);
    let last_version = max_version(records);
    let batch = pending(list, last_version);
    if last_version > highest_known(list) || !applicable(records, batch) {
        Err(DataError::IoOrEngineFailure)
    } else {
        Ok(records + records_of(batch, now))
    }
}

/// In records whose versions rise, the last record holds the highest version.
pub proof fn lemma_max_version_is_last(records: Seq<MigrationData>)
    requires
        increasing(records),
    ensures
        records.len() > 0 ==> max_version(records) == records.last().version,
        records.len() == 0 ==> max_version(records) == 0,
        forall|i: int| 0 <= i < records.len() ==> (#[trigger] records[i]).version <= max_version(records),
    decreases records.len(),
{
    if records.len() > 0 {
        let front = records.drop_last();
        lemma_max_version_is_last(front);
        assert forall|i: int| 0 <= i < records.len() implies (#[trigger] records[i]).version
            <= max_version(records) by {
            if i < records.len() - 1 {
                assert(front[i] == records[i]);
            }
        }
    }
}

/// No recorded version lies above the highest, and the highest is recorded.
pub proof fn lemma_max_version_bounds(records: Seq<MigrationData>)
    ensures
        forall|i: int| 0 <= i < records.len() ==> (#[trigger] records[i]).version <= max_version(records),
        records.len() > 0 ==> exists|i: int| 0 <= i < records.len() && (#[trigger] records[i]).version == max_version(records),
        records.len() == 0 ==> max_version(records) == 0,
    decreases records.len(),
{
    if records.len() > 0 {
        let front = records.drop_last();
        lemma_max_version_bounds(front);
        assert forall|i: int| 0 <= i < records.len() implies (#[trigger] records[i]).version
            <= max_version(records) by {
            if i < records.len() - 1 {
                assert(front[i] == records[i]);
            }
        }
        if max_version(front) > records.last().version {
            let i = choose|i: int| 0 <= i < front.len() && (#[trigger] front[i]).version == max_version(front);
            assert(records[i] == front[i]);
        } else {
            assert(records[records.len() - 1].version == max_version(records));
        }
    }
}

/// No version of a list lies above its highest version.
pub proof fn lemma_highest_known_bounds(list: Seq<Migration>)
    ensures
        forall|i: int| 0 <= i < list.len() ==> (#[trigger] list[i]).version <= highest_known(list),
        list.len() > 0 ==> exists|i: int| 0 <= i < list.len() && (#[trigger] list[i]).version == highest_known(list),
        list.len() == 0 ==> highest_known(list) == 0,
    decreases list.len(),
{
    if list.len() > 0 {
        let front = list.drop_last();
        lemma_highest_known_bounds(front);
        assert forall|i: int| 0 <= i < list.len() implies (#[trigger] list[i]).version
            <= highest_known(list) by {
            if i < list.len() - 1 {
                assert(front[i] == list[i]);
            }
        }
        if highest_known(front) > list.last().version {
            let i = choose|i: int| 0 <= i < front.len() && (#[trigger] front[i]).version == highest_known(front);
            assert(list[i] == front[i]);
        } else {
            assert(list[list.len() - 1].version == highest_known(list));
        }
    }
}

/// The engine's own migrations rise in version and end at the version of
/// the schema.
pub proof fn lemma_engine_migrations()
    ensures
        ascending(engine_migrations()),
        highest_known(engine_migrations()) == SCHEMA_VERSION,
{
    let list = engine_migrations();
    let first = list.drop_last();
    assert(list.len() == 2 && list[0].version == 1 && list[1].version == SCHEMA_VERSION);
    assert(first.len() == 1 && first.last().version == 1);
    assert(first.drop_last() =~= Seq::<Migration>::empty());
    assert(highest_known(first.drop_last()) == 0);
    assert(highest_known(first) == 1);
}

/// The engine's own migrations, lowest version first.
pub fn migration_list() -> (list: Vec<Migration>)
    ensures
        list@ == engine_migrations(),
{
    let mut list: Vec<Migration> = Vec::new();
    list.push(Migration { version: 1, sql_statements: INITIAL_SCHEMA });
    list.push(Migration { version: SCHEMA_VERSION, sql_statements: TYPED_SCHEMA });
    assert(list@ =~= engine_migrations());
    list
}

/// The highest version that `list` knows, or 0 where it is empty.
pub fn highest_version(list: &Vec<Migration>) -> (highest: u32)
    ensures
        highest == highest_known(list@),
{
    let mut highest: u32 = 0;
    let mut i: usize = 0;
    while i < list.len()
        invariant
            i <= list.len(),
            highest == highest_known(list@.take(i as int)),
        decreases list.len() - i,
    {
        assert(list@.take(i + 1).drop_last() =~= list@.take(i as int));
        if list[i].version > highest {
            highest = list[i].version;
        }
        i = i + 1;
    }
    assert(list@.take(list.len() as int) =~= list@);
    highest
}

/// Selects the migrations that a store at `last_version` still lacks.
pub fn pending_migrations(available: &Vec<Migration>, last_version: u32) -> (selected: Vec<
    Migration,
>)
    ensures
        selected@ == pending(available@, last_version),
{
    let mut selected: Vec<Migration> = Vec::new();
    let mut i: usize = 0;
    proof {
        reveal(Seq::filter);
        assert(available@.take(0).len() == 0);
    }
    while i < available.len()
        invariant
            i <= available.len(),
            selected@ == pending(available@.take(i as int), last_version),
        decreases available.len() - i,
    {
        proof {
            available@.take(i as int).lemma_filter_push(available@[i as int], is_pending(last_version));
            assert(available@.take(i + 1) =~= available@.take(i as int).push(available@[i as int]));
        }
        if available[i].version > last_version {
            selected.push(available[i]);
        }
        i = i + 1;
    }
    assert(available@.take(available.len() as int) =~= available@);
    selected
}

/// The version that a store is at whose latest record is `latest`: 0 where
/// nothing was applied yet.
pub open spec fn version_of(latest: Option<MigrationData>) -> u32 {
    match latest {
        Some(record) => record.version,
        None => 0,
    }
}

/// Decides what a store has to apply whose latest record is `latest`: the
/// migrations of `available` above its version, in the order of the list.
///
/// The decision fails where the store is already above every version that
/// `available` knows, so that its schema is one this engine cannot answer
/// for, and where the selected versions do not rise strictly.
pub fn select_migrations(latest: Option<MigrationData>, available: &Vec<Migration>) -> (selected:
    Result<Vec<Migration>, DataError>)
    ensures
        match selected {
            Ok(batch) => batch@ == pending(available@, version_of(latest)) && ascending(batch@)
                && all_above(batch@, version_of(latest)) && version_of(latest) <= highest_known(
                available@,
            ),
            Err(e) => e == DataError::IoOrEngineFailure && (version_of(latest) > highest_known(
                available@,
            ) || !ascending(pending(available@, version_of(latest)))),
        },
{
    let last_version: u32 = match latest {
        Some(migration) => migration.version,
        None => 0,
    };
    if last_version > highest_version(available) {
        return Err(DataError::IoOrEngineFailure);
    }
    let batch = pending_migrations(available, last_version);
    proof {
        lemma_filter_members(available@, is_pending(last_version));
        assert forall|k: int| 0 <= k < batch@.len() implies (#[trigger] batch@[k]).version
            > last_version by {
            assert(batch@.contains(batch@[k]));
        }
    }
    let mut i: usize = 0;
    while i < batch.len()
        invariant
            i <= batch.len(),
            last_version == version_of(latest),
            last_version <= highest_known(available@),
            batch@ == pending(available@, last_version),
            all_above(batch@, last_version),
            ascending(batch@.take(i as int)),
        decreases batch.len() - i,
    {
        if i > 0 && batch[i - 1].version >= batch[i].version {
            assert(!ascending(batch@));
            return Err(DataError::IoOrEngineFailure);
        }
        proof {
            let prefix = batch@.take(i as int);
            let next = batch@.take(i + 1);
            assert forall|a: int, b: int| 0 <= a < b < next.len() implies (#[trigger] next[a]).version
                < (#[trigger] next[b]).version by {
                if b < i {
                    assert(prefix[a] == next[a] && prefix[b] == next[b]);
                } else if a < i - 1 {
                    assert(prefix[a] == next[a] && prefix[i - 1] == next[i - 1]);
                    assert(prefix[a].version < prefix[i - 1].version);
                }
            }
        }
        i = i + 1;
    }
    proof {
        assert(batch@.take(batch.len() as int) =~= batch@);
    }
    Ok(batch)
}

/// The metadata table of a store: the records of the schema versions applied
/// to it, oldest first. A fresh store has no such table yet.
pub struct MigrationLog {
    records: Option<Vec<MigrationData>>,
}

impl View for MigrationLog {
    type V = Option<Seq<MigrationData>>;

    closed spec fn view(&self) -> Option<Seq<MigrationData>> {
        match self.records {
            Some(records) => Some(records@),
            None => None,
        }
    }
}

impl MigrationLog {
    /// The recorded versions rise strictly: no version was applied twice, and
    /// none out of order.
    pub open spec fn wf(&self) -> bool {
        increasing(records_or_none(self@))
    }

    /// The metadata of a fresh store: no table, nothing applied.
    pub fn new() -> (log: MigrationLog)
        ensures
            log@ is None,
            log.wf(),
    {
        MigrationLog { records: None }
    }

    /// Whether the metadata table exists.
    pub fn check_if_migration_table_exists(&self) -> (exists: bool)
        ensures
            exists == self@.is_some(),
    {
        self.records.is_some()
    }

    /// Creates the metadata table unless it exists. The records of an
    /// existing table stay as they are.
    pub fn create_migrations_table(&mut self) -> (created: Result<(), DataError>)
        ensures
            created is Ok,
            final(self)@ == Some(records_or_none(old(self)@)),
    {
        if self.records.is_none() {
            self.records = Some(Vec::new());
        }
        Ok(())
    }

    /// The record of the highest applied version, if any version was applied.
    /// Without a metadata table there is nothing to ask, and the call fails.
    pub fn get_latest_migration(&self) -> (latest: Result<Option<MigrationData>, DataError>)
        requires
            self.wf(),
        ensures
            match latest {
                Ok(Some(record)) => self@ matches Some(records) && records.len() > 0 && record
                    == records.last() && record.version == max_version(records),
                Ok(None) => self@ matches Some(records) && records.len() == 0,
                Err(e) => e == DataError::IoOrEngineFailure && self@ is None,
            },
    {
        match &self.records {
            None => Err(DataError::IoOrEngineFailure),
            Some(records) => {
                proof {
                    lemma_max_version_is_last(records@);
                }
                if records.len() == 0 {
                    Ok(None)
                } else {
                    Ok(Some(records[records.len() - 1]))
                }
            },
        }
    }

    /// Applies a batch of migrations as one unit: a record for each, in
    /// order, or on failure none at all.
    ///
    /// An empty batch always succeeds and changes nothing, whether or not
    /// there is a metadata table. A batch that is not empty is refused when
    /// there is no metadata table, when its versions do not rise strictly,
    /// or when one of them is not above every version already applied.
    pub fn apply_migrations(&mut self, migrations_to_apply: &Vec<Migration>, now: i64) -> (applied:
        Result<(), DataError>)
        requires
            old(self).wf(),
        ensures
            final(self).wf(),
            match applied {
                Ok(()) => batch_applied(old(self)@, migrations_to_apply@, now) == Ok::<
                    Option<Seq<MigrationData>>,
                    DataError,
                >(final(self)@),
                Err(e) => batch_applied(old(self)@, migrations_to_apply@, now) == Err::<
                    Option<Seq<MigrationData>>,
                    DataError,
                >(e) && final(self)@ == old(self)@,
            },
    {
        if migrations_to_apply.len() == 0 {
            return Ok(());
        }
        let ghost batch = migrations_to_apply@;
        let (mut staged, mut latest) = match &self.records {
            None => {
                return Err(DataError::IoOrEngineFailure);
            },
            Some(records) => {
                proof {
                    lemma_max_version_is_last(records@);
                }
                let latest: u32 = if records.len() == 0 {
                    0
                } else {
                    records[records.len() - 1].version
                };
                (records.clone(), latest)
            },
        };
        let ghost records = records_or_none(self@);
        assert(staged@ =~= records);
        let mut i: usize = 0;
        while i < migrations_to_apply.len()
            invariant
                i <= migrations_to_apply.len(),
                batch == migrations_to_apply@,
                self@ == Some(records),
                increasing(records),
                increasing(staged@),
                staged@ == records + records_of(batch.take(i as int), now),
                ascending(batch.take(i as int)),
                all_above(batch.take(i as int), max_version(records)),
                latest >= max_version(records),
                i == 0 ==> latest == max_version(records),
                i > 0 ==> latest == batch[i - 1].version,
                forall|k: int| 0 <= k < staged@.len() ==> (#[trigger] staged@[k]).version <= latest,
            decreases migrations_to_apply.len() - i,
        {
            let migration = migrations_to_apply[i];
            if migration.version <= latest {
                proof {
                    if i == 0 {
                        assert(!all_above(batch, max_version(records)));
                    } else {
                        assert(batch[i - 1].version >= batch[i as int].version);
                        assert(!ascending(batch));
                    }
                }
                return Err(DataError::IoOrEngineFailure);
            }
            let ghost before = staged@;
            staged.push(MigrationData { version: migration.version, last_migration_time: now });
            proof {
                let prefix = batch.take(i as int);
                let next = batch.take(i + 1);
                assert(next =~= prefix.push(batch[i as int]));
                assert(records_of(next, now) =~= records_of(prefix, now).push(
                    record_of(batch[i as int], now),
                ));
                assert(staged@ =~= records + records_of(next, now));
                assert forall|a: int, b: int| 0 <= a < b < next.len() implies (#[trigger] next[a]).version
                    < (#[trigger] next[b]).version by {
                    if b < i {
                        assert(prefix[a] == next[a] && prefix[b] == next[b]);
                    } else if i > 0 {
                        assert(prefix[a] == next[a]);
                        assert(prefix[i - 1] == batch[i - 1]);
                    }
                }
                assert forall|a: int, b: int| 0 <= a < b < staged@.len() implies (
                #[trigger] staged@[a]).version < (#[trigger] staged@[b]).version by {
                    if b < before.len() {
                        assert(before[a] == staged@[a] && before[b] == staged@[b]);
                    } else {
                        assert(before[a] == staged@[a]);
                    }
                }
                assert forall|k: int| 0 <= k < next.len() implies (#[trigger] next[k]).version
                    > max_version(records) by {
                    if k < i {
                        assert(prefix[k] == next[k]);
                    }
                }
            }
            latest = migration.version;
            i = i + 1;
        }
        proof {
            assert(batch.take(migrations_to_apply.len() as int) =~= batch);
        }
        self.records = Some(staged);
        Ok(())
    }

    /// Brings the store up to the newest version of `available`, stamping
    /// the new records with `now`.
    ///
    /// Creates the metadata table if it is missing, finds the highest
    /// applied version, and applies the migrations above it, in ascending
    /// order and as one unit. With nothing pending this changes nothing and
    /// succeeds. It fails, with every record as it was, when the store is
    /// already above every version of `available`, or when the pending
    /// versions do not rise strictly.
    pub fn migrate(&mut self, available: &Vec<Migration>, now: i64) -> (outcome: Result<
        (),
        DataError,
    >)
        requires
            old(self).wf(),
        ensures
            final(self).wf(),
            match outcome {
                Ok(()) => final(self)@ matches Some(records) && migrated(old(self)@, available@, now)
                    == Ok::<Seq<MigrationData>, DataError>(records),
                Err(e) => e == DataError::IoOrEngineFailure && migrated(old(self)@, available@, now)
                    is Err && final(self)@ == Some(records_or_none(old(self)@)),
            },
    {
        if !self.check_if_migration_table_exists() {
            match self.create_migrations_table() {
                Ok(()) => {},
                Err(e) => {
                    return Err(e);
                },
            }
        }
        let latest_migration = match self.get_latest_migration() {
            Ok(latest_migration) => latest_migration,
            Err(e) => {
                return Err(e);
            },
        };
        let migrations_to_apply = match select_migrations(latest_migration, available) {
            Ok(migrations_to_apply) => migrations_to_apply,
            Err(e) => {
                return Err(e);
            },
        };
        self.apply_migrations(&migrations_to_apply, now)
    }
}

/// What a filter keeps of a list whose versions rise has versions that rise.
pub proof fn lemma_pending_ascending(list: Seq<Migration>, last_version: u32)
    requires
        ascending(list),
    ensures
        ascending(pending(list, last_version)),
        all_above(pending(list, last_version), last_version),
{
    let batch = pending(list, last_version);
    lemma_filter_order(list, is_pending(last_version));
    lemma_filter_members(list, is_pending(last_version));
    assert forall|a: int, b: int| 0 <= a < b < batch.len() implies (#[trigger] batch[a]).version < (
    #[trigger] batch[b]).version by {
        assert(in_order(list, batch[a], batch[b]));
        let (i, j) = choose|i: int, j: int|
            #![trigger list[i], list[j]]
            0 <= i && i < j && j < list.len() && list[i] == batch[a] && list[j] == batch[b];
        assert(list[i].version < list[j].version);
    }
    assert forall|a: int| 0 <= a < batch.len() implies (#[trigger] batch[a]).version
        > last_version by {
        assert(batch.contains(batch[a]));
    }
}

/// Migrating with a list whose versions rise succeeds exactly when the
/// store is not already above every version of the list.
pub proof fn lemma_migration_succeeds(log: Option<Seq<MigrationData>>, list: Seq<Migration>, now: i64)
    requires
        ascending(list),
    ensures
        migrated(log, list, now) is Ok <==> max_version(records_or_none(log)) <= highest_known(list),
{
    lemma_pending_ascending(list, max_version(records_or_none(log)));
}

/// A migration that succeeds leaves the store at the highest version of the
/// list, and leaves none of the list pending.
pub proof fn lemma_migrated_reaches_highest(
    log: Option<Seq<MigrationData>>,
    list: Seq<Migration>,
    now: i64,
)
    ensures
        migrated(log, list, now) matches Ok(records) ==> max_version(records) == highest_known(list)
            && pending(list, max_version(records)) == Seq::<Migration>::empty(),
{
    if migrated(log, list, now) is Ok {
        let before = records_or_none(log);
        let last = max_version(before);
        let batch = pending(list, last);
        let records = before + records_of(batch, now);
        let reached = max_version(records);
        lemma_max_version_bounds(before);
        lemma_max_version_bounds(records);
        lemma_highest_known_bounds(list);
        lemma_filter_members(list, is_pending(last));
        assert(last <= reached) by {
            if before.len() > 0 {
                let k = choose|k: int| 0 <= k < before.len() && (#[trigger] before[k]).version == last;
                assert(records[k] == before[k]);
            }
        }
        assert forall|i: int| 0 <= i < list.len() implies !is_pending(reached)(#[trigger] list[i]) by {
            if list[i].version > last {
                assert(list.contains(list[i]));
                assert(batch.contains(list[i]));
                let j = choose|j: int| 0 <= j < batch.len() && batch[j] == list[i];
                assert(records[before.len() + j] == record_of(batch[j], now));
            }
        }
        lemma_filter_none(list, is_pending(reached));
        assert(reached <= highest_known(list)) by {
            if records.len() > 0 {
                let k = choose|k: int| 0 <= k < records.len() && (#[trigger] records[k]).version == reached;
                if k < before.len() {
                    assert(records[k] == before[k]);
                } else {
                    let j = k - before.len();
                    assert(records[k] == record_of(batch[j], now));
                    assert(batch.contains(batch[j]));
                    assert(list.contains(batch[j]));
                    let m = choose|m: int| 0 <= m < list.len() && list[m] == batch[j];
                    assert(list[m].version <= highest_known(list));
                }
            }
        }
        assert(highest_known(list) <= reached) by {
            if list.len() > 0 {
                let m = choose|m: int| 0 <= m < list.len() && (#[trigger] list[m]).version == highest_known(list);
                assert(!is_pending(reached)(list[m]));
            }
        }
    }
}

/// Migrating a second time adds no record and does not fail: whatever the
/// first run left, the second finds nothing pending.
pub proof fn lemma_migrate_idempotent(
    log: Option<Seq<MigrationData>>,
    list: Seq<Migration>,
    first: i64,
    second: i64,
)
    ensures
        migrated(log, list, first) matches Ok(records) ==> migrated(Some(records), list, second)
            == Ok::<Seq<MigrationData>, DataError>(records),
{
    if let Ok(records) = migrated(log, list, first) {
        lemma_migrated_reaches_highest(log, list, first);
        assert(records + records_of(pending(list, max_version(records)), second) =~= records);
    }
}

/// The versions of `records`, in their order.
pub open spec fn applied_versions(records: Seq<MigrationData>) -> Seq<u32> {
    records.map_values(|record: MigrationData| record.version)
}

/// The versions of `list`, in their order.
pub open spec fn known_versions(list: Seq<Migration>) -> Seq<u32> {
    list.map_values(|migration: Migration| migration.version)
}

/// A store that has applied the first `k` migrations of a list, and no
/// others, has after a migration applied all of them, each once and in the
/// order of the list: the records never show a gap, a version twice, or a
/// version that the list does not know.
pub proof fn lemma_migrate_fills_without_gaps(
    records: Seq<MigrationData>,
    list: Seq<Migration>,
    k: int,
    now: i64,
)
    requires
        ascending(list),
        all_above(list, 0),
        0 <= k <= list.len(),
        applied_versions(records) == known_versions(list).take(k),
    ensures
        migrated(Some(records), list, now) matches Ok(after) && applied_versions(after)
            == known_versions(list) && after == records + records_of(list.skip(k), now),
{
    let old_part = list.take(k);
    let new_part = list.skip(k);
    assert(applied_versions(records).len() == records.len());
    assert(known_versions(list).take(k).len() == k);
    assert(records.len() == k);
    assert forall|i: int| 0 <= i < k implies (#[trigger] records[i]).version == list[i].version by {
        assert(applied_versions(records)[i] == known_versions(list).take(k)[i]);
    }
    assert(increasing(records)) by {
        assert forall|i: int, j: int| 0 <= i < j < records.len() implies (#[trigger] records[i]).version
            < (#[trigger] records[j]).version by {
            assert(list[i].version < list[j].version);
        }
    }
    lemma_max_version_is_last(records);
    let last = max_version(records);
    assert(k > 0 ==> last == list[k - 1].version);
    assert(list =~= old_part + new_part);
    Seq::filter_distributes_over_add(old_part, new_part, is_pending(last));
    assert forall|i: int| 0 <= i < old_part.len() implies !is_pending(last)(#[trigger] old_part[i]) by {
        assert(old_part[i] == list[i]);
        if i < k - 1 {
            assert(list[i].version < list[k - 1].version);
        }
    }
    assert forall|i: int| 0 <= i < new_part.len() implies is_pending(last)(#[trigger] new_part[i]) by {
        assert(new_part[i] == list[k + i]);
        if k > 0 {
            assert(list[k - 1].version < list[k + i].version);
        }
    }
    lemma_filter_none(old_part, is_pending(last));
    lemma_filter_all(new_part, is_pending(last));
    assert(pending(list, last) =~= new_part);
    lemma_migration_succeeds(Some(records), list, now);
    lemma_highest_known_bounds(list);
    assert(last <= highest_known(list)) by {
        if k > 0 {
            assert(list[k - 1].version <= highest_known(list));
        }
    }
    let after = records + records_of(new_part, now);
    assert(after.len() == list.len());
    assert forall|i: int| 0 <= i < list.len() implies (#[trigger] after[i]).version
        == list[i].version by {
        if i >= k {
            assert(after[i] == records_of(new_part, now)[i - k]);
            assert(new_part[i - k] == list[i]);
        } else {
            assert(after[i] == records[i]);
        }
    }
    assert(applied_versions(after) =~= known_versions(list));
}

/// A store at version `n`, migrated with a list that holds the versions 1 to
/// `n + 2`, applies version `n + 1` and then version `n + 2`, each once, and
/// nothing else.
pub proof fn lemma_migrate_exactly_once(
    records: Seq<MigrationData>,
    list: Seq<Migration>,
    n: u32,
    now: i64,
)
    requires
        max_version(records) == n,
        list.len() == n + 2,
        forall|i: int| 0 <= i < list.len() ==> (#[trigger] list[i]).version == i + 1,
    ensures
        list[n as int].version == n + 1,
        list[n + 1].version == n + 2,
        migrated(Some(records), list, now) == Ok::<Seq<MigrationData>, DataError>(
            records.push(record_of(list[n as int], now)).push(record_of(list[n + 1], now)),
        ),
{
    let old_part = list.take(n as int);
    let new_part = list.skip(n as int);
    assert(list =~= old_part + new_part);
    Seq::filter_distributes_over_add(old_part, new_part, is_pending(n));
    lemma_filter_none(old_part, is_pending(n));
    lemma_filter_all(new_part, is_pending(n));
    assert(pending(list, n) =~= new_part);
    assert(new_part =~= seq![list[n as int], list[n + 1]]);
    lemma_highest_known_bounds(list);
    assert(list[n + 1].version <= highest_known(list));
    assert(records + records_of(new_part, now) =~= records.push(record_of(list[n as int], now)).push(
        record_of(list[n + 1], now),
    ));
}

} // verus!
