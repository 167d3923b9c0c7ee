//! Persistence core of a shared-expense ledger.
//!
//! The store keeps users, groups, the memberships that join users to groups,
//! expenses, and the share of each expense that each member owes.
//!
//! - `error`: the kinds of failure an operation reports, and the kind that
//!   stands for each error code of the database driver.
//! - `datamodel`: the records, and the operations of the storage engine
//!   with what each of them promises.
//! - `split`: how an expense is divided among the members of its group.
//! - `migrations`: the schema versions of a store and how a store is
//!   brought forward to the newest of them.
//! - `tables`: the tables as plain values, and what each operation makes
//!   of them; `invariants`: the rules of the tables that every operation
//!   keeps; `laws`: what follows for operations used one after another.
//! - `store`: the storage engine over tables held in memory.
//! - `gate`: the pool of permits that bounds concurrent use of a store.
//! - `state_machine`: the conversation through which a user registers,
//!   creates groups and adds users to them.
//! - `sequences`: facts about filtered sequences that the proofs share.

pub mod datamodel;
pub mod error;
pub mod gate;
pub mod invariants;
pub mod laws;
pub mod migrations;
pub mod sequences;
pub mod split;
pub mod state_machine;
pub mod store;
pub mod tables;
