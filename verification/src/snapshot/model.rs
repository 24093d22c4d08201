//! Snapshots: where every startup item is written and what it held, at
//! one moment. A snapshot is what a rollback returns to, what the change
//! log compares with, and what the stand-alone restore scripts are made of.

use vstd::prelude::*;
use crate::dedupe::{uuid_v5, uuid_v5_text};

verus! {

/// The layout version of snapshot files; raised only by breaking changes.
pub const SNAPSHOT_SCHEMA_VERSION: u32 = 1;

/// Where a record is written.
#[derive(Debug, Clone)]
pub struct SnapshotTarget {
    /// The source kind, by its name (`RunUser`, `ScheduledTask`, ...).
    pub source: String,
    /// Registry key, folder, task path or service name: complete in itself.
    pub location: String,
    /// The value name (kept byte for byte, leading blanks included).
    pub value_name: Option<String>,
}

/// One startup item in a snapshot.
#[derive(Debug, Clone)]
pub struct SnapshotRecord {
    /// The item's stable id.
    pub id: String,
    /// The name shown when a rollback is confirmed.
    pub display_name: String,
    pub target: SnapshotTarget,
    /// The `StartupApproved` value as it was, in hexadecimal.
    pub approved_raw: Option<String>,
    /// A task's own switch as it was.
    pub task_enabled: Option<bool>,
    /// A task's boot or logon trigger switch as it was.
    pub trigger_enabled: Option<bool>,
    /// A service's start type as it was.
    pub service_start_type: Option<u32>,
    /// `user` or `machine`.
    pub scope: String,
    /// The risk level, by its name.
    pub risk: String,
}

/// Why a snapshot was taken. A rollback takes one too, so that it can be
/// undone in turn.
#[derive(Debug, Clone, Copy, PartialEq, Eq, Structural)]
pub enum SnapshotReason {
    Scan,
    Modify,
    Rollback,
    Export,
}

/// A full baseline taken before a change.
#[derive(Debug, Clone)]
pub struct Snapshot {
    pub schema_version: u32,
    pub id: String,
    /// When it was taken, RFC 3339.
    pub created_at: String,
    /// What it is, in plain words.
    pub description: String,
    pub reason: SnapshotReason,
    pub records: Vec<SnapshotRecord>,
}

/// The namespace of snapshot ids (the standard OID namespace).
pub const SNAPSHOT_NS: u128 = 0x6ba7b812_9dad_11d1_80b4_00c04fd430c8u128;

/// The seed of a snapshot id: `BootFlow:` and the time it was taken.
pub open spec fn snapshot_seed(created_at: Seq<char>) -> Seq<char> {
    "BootFlow:"@ + created_at
}

/// A snapshot's id: the version 5 UUID of its creation time in the OID
/// namespace, so that the same moment gives the same id. The first
/// argument is reserved and does not enter the id.
pub fn snapshot_id(namespace: &str, created_at: &str) -> (r: String)
    ensures
        r@ == uuid_v5_text(SNAPSHOT_NS, snapshot_seed(created_at@)),
        r@.len() == 36,
{
    let _ = namespace;
    let mut seed = String::new();
    crate::text::push_str(&mut seed, "BootFlow:");
    crate::text::push_str(&mut seed, created_at);
    uuid_v5(SNAPSHOT_NS, seed.as_str())
}

} // verus!
