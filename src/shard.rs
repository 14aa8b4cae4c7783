use std::sync::Arc;
use vstd::prelude::*;

use crate::level::LevelHandler;
use crate::level::tables_total_size;
use crate::table::{sum_sizes, Table};

verus! {

/// Number of column families of a shard.
pub const NUM_CFS: usize = 3;

/// Stage of a shard in the split protocol, in protocol order.
#[derive(Clone, Copy, Debug, PartialEq, Eq, Structural)]
pub enum SplitStage {
    Initial,
    PreSplit,
    PreSplitFlushDone,
    SplitFileDone,
}

/// The levels `1..=max_level` of one column family; `levels[i]` is level `i + 1`.
#[derive(Clone)]
pub struct ShardCF {
    pub levels: Vec<LevelHandler>,
}

/// One shard: its identity, bookkeeping and table structure.
#[derive(Clone)]
pub struct Shard {
    pub id: u64,
    pub ver: u64,
    /// Sequence number of the last change-set taken.
    pub meta_seq: u64,
    pub split_stage: SplitStage,
    pub compacting: bool,
    pub initial_flushed: bool,
    /// Ids of the in-memory write buffers not yet flushed, newest first.
    pub mem_tables: Vec<u64>,
    /// Level-0 tables, newest first.
    pub l0_tbls: Vec<Arc<Table>>,
    pub cfs: Vec<ShardCF>,
    /// Estimated bytes held by the shard's tables.
    pub estimated_size: u64,
}

/// `n` capped at `u64::MAX`.
pub open spec fn cap(n: nat) -> nat {
    if n > u64::MAX {
        u64::MAX as nat
    } else {
        n
    }
}

/// The sum of the recorded sizes of `levels`.
pub open spec fn levels_size(levels: Seq<LevelHandler>) -> nat
    decreases levels.len(),
{
    if levels.len() == 0 {
        0
    } else {
        levels_size(levels.drop_last()) + levels.last().total_size as nat
    }
}

/// The sum of the level sizes of `cfs`.
pub open spec fn cfs_size(cfs: Seq<ShardCF>) -> nat
    decreases cfs.len(),
{
    if cfs.len() == 0 {
        0
    } else {
        cfs_size(cfs.drop_last()) + levels_size(cfs.last().levels@)
    }
}

/// The size of a shard: its level-0 tables and the recorded sizes of its levels,
/// capped at `u64::MAX`.
pub open spec fn estimated_size_of(s: Shard) -> nat {
    cap(sum_sizes(s.l0_tbls@) + cfs_size(s.cfs@))
}

impl ShardCF {
    /// Every level is a valid level, and there is at least one.
    pub open spec fn wf(&self) -> bool {
        &&& self.levels@.len() >= 1
        &&& forall|l: int| 0 <= l < self.levels@.len() ==> (#[trigger] self.levels@[l]).wf()
    }

    /// A column family with `max_level` empty levels.
    pub fn new(max_level: usize) -> (r: ShardCF)
        requires
            max_level >= 1,
        ensures
            r.wf(),
            r.levels@.len() == max_level,
            forall|l: int| 0 <= l < max_level ==> (#[trigger] r.levels@[l]).tables@.len() == 0,
    {
        let mut levels: Vec<LevelHandler> = Vec::new();
        let mut i: usize = 0;
        while i < max_level
            invariant
                i <= max_level,
                levels@.len() == i,
                forall|l: int| 0 <= l < i ==> (#[trigger] levels@[l]).wf() && levels@[l].tables@.len()
                    == 0,
            decreases max_level - i,
        {
            levels.push(LevelHandler::new());
            i = i + 1;
        }
        ShardCF { levels }
    }
}

impl Shard {
    /// One column family per kind, each made of valid levels.
    pub open spec fn wf(&self) -> bool {
        &&& self.cfs@.len() == NUM_CFS
        &&& forall|cf: int| 0 <= cf < NUM_CFS ==> (#[trigger] self.cfs@[cf]).wf()
    }

    /// A fresh shard with no tables and `max_levels[cf]` levels in each column family.
    pub fn new(id: u64, ver: u64, max_levels: &Vec<usize>) -> (r: Shard)
        requires
            max_levels@.len() == NUM_CFS,
            forall|cf: int| 0 <= cf < NUM_CFS ==> max_levels@[cf] >= 1,
        ensures
            r.wf(),
            r.id == id,
            r.ver == ver,
            r.meta_seq == 0,
            r.split_stage == SplitStage::Initial,
            !r.compacting,
            !r.initial_flushed,
            r.mem_tables@.len() == 0,
            r.l0_tbls@.len() == 0,
            r.estimated_size == 0,
            forall|cf: int| 0 <= cf < NUM_CFS ==> (#[trigger] r.cfs@[cf]).levels@.len() == max_levels@[cf],
            forall|cf: int, l: int|
                0 <= cf < NUM_CFS && 0 <= l < r.cfs@[cf].levels@.len() ==> (#[trigger] r.cfs@[cf].levels@[l]).tables@.len()
                    == 0,
    {
        let mut cfs: Vec<ShardCF> = Vec::new();
        let mut cf: usize = 0;
        while cf < NUM_CFS
            invariant
                cf <= NUM_CFS,
                cfs@.len() == cf,
                max_levels@.len() == NUM_CFS,
                forall|c: int| 0 <= c < NUM_CFS ==> max_levels@[c] >= 1,
                forall|c: int|
                    0 <= c < cf ==> (#[trigger] cfs@[c]).wf() && cfs@[c].levels@.len() == max_levels@[c],
                forall|c: int, l: int|
                    0 <= c < cf && 0 <= l < cfs@[c].levels@.len() ==> (#[trigger] cfs@[c].levels@[l]).tables@.len()
                        == 0,
            decreases NUM_CFS - cf,
        {
            cfs.push(ShardCF::new(max_levels[cf]));
            cf = cf + 1;
        }
        Shard {
            id,
            ver,
            meta_seq: 0,
            split_stage: SplitStage::Initial,
            compacting: false,
            initial_flushed: false,
            mem_tables: Vec::new(),
            l0_tbls: Vec::new(),
            cfs,
            estimated_size: 0,
        }
    }

    /// Recomputes `estimated_size` from the current tables; nothing else changes.
    pub fn refresh_estimated_size(&mut self)
        ensures
            final(self).estimated_size == estimated_size_of(*old(self)),
            *final(self) == (Shard { estimated_size: final(self).estimated_size, ..*old(self) }),
    {
        let mut total = tables_total_size(&self.l0_tbls);
        let mut c: usize = 0;
        while c < self.cfs.len()
            invariant
                c <= self.cfs@.len(),
                total == cap(sum_sizes(self.l0_tbls@) + cfs_size(self.cfs@.take(c as int))),
            decreases self.cfs@.len() - c,
        {
            assert(self.cfs@.take(c + 1).drop_last() =~= self.cfs@.take(c as int));
            let levels = &self.cfs[c].levels;
            let mut l: usize = 0;
            let ghost base = sum_sizes(self.l0_tbls@) + cfs_size(self.cfs@.take(c as int));
            assert(levels@.take(0) =~= Seq::<LevelHandler>::empty());
            while l < levels.len()
                invariant
                    l <= levels@.len(),
                    total == cap(base + levels_size(levels@.take(l as int))),
                decreases levels@.len() - l,
            {
                assert(levels@.take(l + 1).drop_last() =~= levels@.take(l as int));
                let size = levels[l].total_size;
                if total > u64::MAX - size {
                    total = u64::MAX;
                } else {
                    total = total + size;
                }
                l = l + 1;
            }
            assert(levels@.take(l as int) =~= levels@);
            c = c + 1;
        }
        assert(self.cfs@.take(c as int) =~= self.cfs@);
        self.estimated_size = total;
    }
}

} // verus!
