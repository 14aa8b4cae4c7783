//! Applies flush, compaction and split-files change-sets to the table
//! structure of a shard of an LSM-tree key-value engine.
use vstd::prelude::*;

pub mod keys;
pub mod table;
pub mod level;
pub mod shard;
pub mod change_set;
pub mod compaction;
pub mod split;
pub mod apply;
pub mod laws;

verus! {

/// Why a change-set could not be applied.
#[derive(Clone, Copy, Debug, PartialEq, Eq, Structural)]
pub enum Error {
    /// No shard with the change-set's id.
    ShardNotFound,
    /// The shard's version differs from the change-set's.
    ShardVersionMismatch,
    /// A split-files change-set arrived outside the pre-split-flush-done stage.
    WrongSplitStage,
    /// A table that the change-set creates was not opened.
    FileNotOpened,
    /// The change-set names a column family, level or table count that the shard does not have.
    InvalidChangeSet,
    /// The tables of a level would be malformed or overlap.
    TablesOverlap,
}

} // verus!
