use vstd::prelude::*;

use crate::shard::SplitStage;

verus! {

/// A table that a change-set creates: its file id and where it goes.
#[derive(Clone, Copy, Debug, PartialEq, Eq, Structural)]
pub struct TableCreate {
    pub id: u64,
    pub cf: usize,
    pub level: usize,
}

/// The result of flushing a write buffer.
pub struct Flush {
    pub l0_create: Option<u64>,
}

/// The result of merging tables of `level` into `level + 1`.
pub struct Compaction {
    pub cf: usize,
    pub level: usize,
    pub conflicted: bool,
    pub table_creates: Vec<TableCreate>,
    pub top_deletes: Vec<u64>,
    pub bottom_deletes: Vec<u64>,
}

/// The tables of a shard after a split, and the tables that leave it.
pub struct SplitFiles {
    pub l0_creates: Vec<u64>,
    pub table_creates: Vec<TableCreate>,
    pub table_deletes: Vec<u64>,
}

/// The structural change a change-set carries.
pub enum Change {
    Flush(Flush),
    Compaction(Compaction),
    SplitFiles(SplitFiles),
    /// A full snapshot of the shard's tables, loaded elsewhere.
    Snapshot(SplitFiles),
    /// No structural change.
    Empty,
}

/// One decoded change-set addressed to a shard.
pub struct ChangeSet {
    pub shard_id: u64,
    pub shard_ver: u64,
    pub sequence: u64,
    pub stage: SplitStage,
    pub change: Change,
}

} // verus!
