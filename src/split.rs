use std::sync::Arc;
use vstd::prelude::*;

use crate::change_set::SplitFiles;
use crate::level::{
    all_opened, build_level, check_opened, collect_create_ids, collect_opened, create_ids,
    deleted_ids, kept, opened_tables, partition_deletes, select_creates, selected, LevelHandler,
};
use crate::shard::{Shard, ShardCF, SplitStage, NUM_CFS};
use crate::table::{pairwise_disjoint, Table};
use crate::Error;

verus! {

/// Level-0 order: commit timestamps never increase, newest first.
pub open spec fn l0_ordered(s: Seq<Arc<Table>>) -> bool {
    forall|i: int, j: int| #![trigger s[i], s[j]] 0 <= i < j < s.len() ==> s[i].commit_ts >= s[j].commit_ts
}

/// Inserts `t` into the newest-first `v` after every table at least as new.
pub fn insert_by_commit_ts(v: &mut Vec<Arc<Table>>, t: Arc<Table>)
    requires
        l0_ordered(old(v)@),
    ensures
        l0_ordered(final(v)@),
        final(v)@.to_multiset() =~= old(v)@.to_multiset().insert(t),
{
    let n = v.len();
    let mut i: usize = 0;
    while i < n && v[i].commit_ts >= t.commit_ts
        invariant
            n == v@.len(),
            i <= n,
            forall|k: int| 0 <= k < i ==> (#[trigger] v@[k]).commit_ts >= t.commit_ts,
        decreases n - i,
    {
        i = i + 1;
    }
    proof {
        vstd::seq_lib::to_multiset_insert(v@, i as int, t);
    }
    let ghost old_v = v@;
    v.insert(i, t);
    assert forall|a: int, b: int| 0 <= a < b < v@.len() implies #[trigger] v@[a].commit_ts
        >= #[trigger] v@[b].commit_ts by {
        if b < i {
        } else if b == i {
        } else if a < i {
            assert(old_v[a].commit_ts >= old_v[b - 1].commit_ts);
        } else if a == i {
            assert(old_v[i as int].commit_ts < t.commit_ts);
            if b - 1 > i {
                assert(old_v[i as int].commit_ts >= old_v[b - 1].commit_ts);
            }
        } else {
            assert(old_v[a - 1].commit_ts >= old_v[b - 1].commit_ts);
        }
    }
}

/// `items` arranged newest first.
pub fn sort_by_commit_ts(items: &Vec<Arc<Table>>) -> (r: Vec<Arc<Table>>)
    ensures
        l0_ordered(r@),
        r@.to_multiset() =~= items@.to_multiset(),
{
    let mut v: Vec<Arc<Table>> = Vec::new();
    let mut i: usize = 0;
    assert(items@.take(0) =~= v@);
    while i < items.len()
        invariant
            i <= items@.len(),
            l0_ordered(v@),
            v@.to_multiset() =~= items@.take(i as int).to_multiset(),
        decreases items@.len() - i,
    {
        let t = items[i].clone();
        proof {
            items@.take(i as int).to_multiset_ensures();
            assert(items@.take(i + 1) =~= items@.take(i as int).push(t));
        }
        insert_by_commit_ts(&mut v, t);
        i = i + 1;
    }
    assert(items@.take(i as int) =~= items@);
    v
}

/// The level-0 tables after a split: the created ones and the old ones not deleted.
pub open spec fn split_l0_contents(old: Seq<Arc<Table>>, sf: SplitFiles, opened: Seq<Arc<Table>>) -> Seq<
    Arc<Table>,
> {
    opened_tables(opened, sf.l0_creates@) + kept(old, sf.table_deletes@)
}

/// The tables of level index `l` of column family `cf` after a split.
pub open spec fn split_level_contents(
    old: LevelHandler,
    sf: SplitFiles,
    opened: Seq<Arc<Table>>,
    cf: int,
    l: int,
) -> Seq<Arc<Table>> {
    selected(sf.table_creates@, opened, cf, Some(l + 1)) + kept(old.tables@, sf.table_deletes@)
}

/// Every create of the split names a column family and a level that the shard has.
pub open spec fn split_fits(shard: Shard, sf: SplitFiles) -> bool {
    forall|i: int|
        0 <= i < sf.table_creates@.len() ==> {
            let c = #[trigger] sf.table_creates@[i];
            c.cf < NUM_CFS && 1 <= c.level <= shard.cfs@[c.cf as int].levels@.len()
        }
}

/// Every table of the split's creates is opened.
pub open spec fn split_opened(sf: SplitFiles, opened: Seq<Arc<Table>>) -> bool {
    all_opened(opened, sf.l0_creates@) && all_opened(opened, create_ids(sf.table_creates@))
}

/// Every level of every column family can be rebuilt.
pub open spec fn split_levels_ok(shard: Shard, sf: SplitFiles, opened: Seq<Arc<Table>>) -> bool {
    forall|cf: int, l: int|
        0 <= cf < NUM_CFS && 0 <= l < shard.cfs@[cf].levels@.len() ==> pairwise_disjoint(
            #[trigger] split_level_contents(shard.cfs@[cf].levels@[l], sf, opened, cf, l),
        )
}

/// The ids that `dels` drops from the first `n` levels of `scf`, in order.
pub open spec fn cf_removed(scf: ShardCF, dels: Seq<u64>, n: int) -> Seq<u64>
    decreases n,
{
    if n <= 0 {
        seq![]
    } else {
        cf_removed(scf, dels, n - 1) + deleted_ids(scf.levels@[n - 1].tables@, dels)
    }
}

/// The ids that `dels` drops from the levels of the first `n` column families, in order.
pub open spec fn cfs_removed(shard: Shard, dels: Seq<u64>, n: int) -> Seq<u64>
    decreases n,
{
    if n <= 0 {
        seq![]
    } else {
        cfs_removed(shard, dels, n - 1) + cf_removed(
            shard.cfs@[n - 1],
            dels,
            shard.cfs@[n - 1].levels@.len() as int,
        )
    }
}

/// `new` is the column family `old` rebuilt by the split: same number of levels,
/// each a valid level holding exactly its new tables.
pub open spec fn cf_rebuilt(old: ShardCF, new: ShardCF, sf: SplitFiles, opened: Seq<Arc<Table>>, cf: int) -> bool {
    &&& new.levels@.len() == old.levels@.len()
    &&& forall|l: int|
        0 <= l < old.levels@.len() ==> (#[trigger] new.levels@[l]).wf()
            && new.levels@[l].tables@.to_multiset() == split_level_contents(
            old.levels@[l],
            sf,
            opened,
            cf,
            l,
        ).to_multiset()
}

/// Rebuilds column family `cf` from the split's creates and the surviving tables.
fn rebuild_cf(
    old_cf: &ShardCF,
    cf: usize,
    sf: &SplitFiles,
    opened: &Vec<Arc<Table>>,
    removed: &mut Vec<u64>,
) -> (r: Option<ShardCF>)
    requires
        old_cf.wf(),
        all_opened(opened@, create_ids(sf.table_creates@)),
    ensures
        r is Some <==> forall|l: int|
            0 <= l < old_cf.levels@.len() ==> pairwise_disjoint(
                #[trigger] split_level_contents(old_cf.levels@[l], *sf, opened@, cf as int, l),
            ),
        r matches Some(n) ==> n.wf() && cf_rebuilt(*old_cf, n, *sf, opened@, cf as int)
            && final(removed)@ == old(removed)@ + cf_removed(
            *old_cf,
            sf.table_deletes@,
            old_cf.levels@.len() as int,
        ),
{
    let mut levels: Vec<LevelHandler> = Vec::new();
    let n = old_cf.levels.len();
    let mut l: usize = 0;
    while l < n
        invariant
            n == old_cf.levels@.len(),
            l <= n,
            all_opened(opened@, create_ids(sf.table_creates@)),
            levels@.len() == l,
            forall|k: int|
                0 <= k < l ==> pairwise_disjoint(
                    #[trigger] split_level_contents(old_cf.levels@[k], *sf, opened@, cf as int, k),
                ),
            forall|k: int|
                0 <= k < l ==> (#[trigger] levels@[k]).wf() && levels@[k].tables@.to_multiset()
                    == split_level_contents(
                    old_cf.levels@[k],
                    *sf,
                    opened@,
                    cf as int,
                    k,
                ).to_multiset(),
            removed@ == old(removed)@ + cf_removed(*old_cf, sf.table_deletes@, l as int),
        decreases n - l,
    {
        let mut items = select_creates(&sf.table_creates, opened, cf, Some(l + 1));
        let (mut keep, mut gone) = partition_deletes(&old_cf.levels[l].tables, &sf.table_deletes);
        items.append(&mut keep);
        assert(items@ == split_level_contents(old_cf.levels@[l as int], *sf, opened@, cf as int, l as int));
        match build_level(&items) {
            Some(level) => {
                levels.push(level);
            },
            None => {
                return None;
            },
        }
        removed.append(&mut gone);
        assert(removed@ =~= old(removed)@ + cf_removed(*old_cf, sf.table_deletes@, l + 1));
        l = l + 1;
    }
    let r = ShardCF { levels };
    assert(r.wf());
    Some(r)
}

/// The outcome of a split-files change on a shard in the right stage whose creates
/// fit and are opened: the new level-0 list newest first, every level rebuilt, the
/// stage advanced and the ids of the dropped tables returned; on overlap, nothing changed.
pub open spec fn split_applied(
    old: Shard,
    new: Shard,
    sf: SplitFiles,
    stage: SplitStage,
    opened: Seq<Arc<Table>>,
    r: Result<Vec<u64>, Error>,
) -> bool {
    if split_levels_ok(old, sf, opened) {
        &&& r is Ok
        &&& r->Ok_0@ == deleted_ids(old.l0_tbls@, sf.table_deletes@) + cfs_removed(
            old,
            sf.table_deletes@,
            NUM_CFS as int,
        )
        &&& l0_ordered(new.l0_tbls@)
        &&& new.l0_tbls@.to_multiset() == split_l0_contents(old.l0_tbls@, sf, opened).to_multiset()
        &&& new.cfs@.len() == NUM_CFS
        &&& forall|cf: int|
            0 <= cf < NUM_CFS ==> cf_rebuilt(old.cfs@[cf], #[trigger] new.cfs@[cf], sf, opened, cf)
        &&& new.split_stage == stage
        &&& new.id == old.id && new.ver == old.ver && new.meta_seq == old.meta_seq
        &&& new.compacting == old.compacting && new.initial_flushed == old.initial_flushed
        &&& new.mem_tables@ == old.mem_tables@
        &&& new.estimated_size == old.estimated_size
    } else {
        r == Err::<Vec<u64>, Error>(Error::TablesOverlap) && new == old
    }
}

/// What applying split-files `sf` to `old` gives: refused outside the
/// pre-split-flush-done stage, or when a create does not fit or is not opened,
/// with nothing changed; else `split_applied`.
pub open spec fn split_outcome(
    old: Shard,
    new: Shard,
    sf: SplitFiles,
    stage: SplitStage,
    opened: Seq<Arc<Table>>,
    r: Result<Vec<u64>, Error>,
) -> bool {
    if old.split_stage != SplitStage::PreSplitFlushDone {
        r == Err::<Vec<u64>, Error>(Error::WrongSplitStage) && new == old
    } else if !split_fits(old, sf) {
        r == Err::<Vec<u64>, Error>(Error::InvalidChangeSet) && new == old
    } else if !split_opened(sf, opened) {
        r == Err::<Vec<u64>, Error>(Error::FileNotOpened) && new == old
    } else {
        split_applied(old, new, sf, stage, opened, r)
    }
}

/// Applies a split-files change: accepted only in the pre-split-flush-done stage;
/// every level and the level-0 list are rebuilt from the creates and the tables
/// not deleted, then the stage becomes `stage`. Returns the ids of the dropped tables.
pub fn apply_split_files(
    shard: &mut Shard,
    sf: &SplitFiles,
    stage: SplitStage,
    opened: &Vec<Arc<Table>>,
) -> (r: Result<Vec<u64>, Error>)
    requires
        old(shard).wf(),
    ensures
        final(shard).wf(),
        split_outcome(*old(shard), *final(shard), *sf, stage, opened@, r),
{
    if shard.split_stage != SplitStage::PreSplitFlushDone {
        return Err(Error::WrongSplitStage);
    }
    let mut i: usize = 0;
    while i < sf.table_creates.len()
        invariant
            shard.wf(),
            *shard == *old(shard),
            shard.split_stage == SplitStage::PreSplitFlushDone,
            i <= sf.table_creates@.len(),
            forall|k: int|
                0 <= k < i ==> {
                    let c = #[trigger] sf.table_creates@[k];
                    c.cf < NUM_CFS && 1 <= c.level <= shard.cfs@[c.cf as int].levels@.len()
                },
        decreases sf.table_creates@.len() - i,
    {
        let c = &sf.table_creates[i];
        if !(c.cf < NUM_CFS && 1 <= c.level && c.level <= shard.cfs[c.cf].levels.len()) {
            return Err(Error::InvalidChangeSet);
        }
        i = i + 1;
    }
    let ids = collect_create_ids(&sf.table_creates);
    if !check_opened(opened, &sf.l0_creates) || !check_opened(opened, &ids) {
        return Err(Error::FileNotOpened);
    }
    assert(split_fits(*shard, *sf));
    let mut l0_items = collect_opened(opened, &sf.l0_creates);
    let (mut l0_keep, mut removed) = partition_deletes(&shard.l0_tbls, &sf.table_deletes);
    l0_items.append(&mut l0_keep);
    let new_l0 = sort_by_commit_ts(&l0_items);
    let mut new_cfs: Vec<ShardCF> = Vec::new();
    let mut cf: usize = 0;
    while cf < NUM_CFS
        invariant
            shard.wf(),
            *shard == *old(shard),
            shard.split_stage == SplitStage::PreSplitFlushDone,
            split_fits(*shard, *sf),
            split_opened(*sf, opened@),
            cf <= NUM_CFS,
            all_opened(opened@, create_ids(sf.table_creates@)),
            new_cfs@.len() == cf,
            forall|c: int, l: int|
                0 <= c < cf && 0 <= l < shard.cfs@[c].levels@.len() ==> pairwise_disjoint(
                    #[trigger] split_level_contents(shard.cfs@[c].levels@[l], *sf, opened@, c, l),
                ),
            forall|c: int|
                0 <= c < cf ==> (#[trigger] new_cfs@[c]).wf() && cf_rebuilt(
                    shard.cfs@[c],
                    new_cfs@[c],
                    *sf,
                    opened@,
                    c,
                ),
            removed@ == deleted_ids(shard.l0_tbls@, sf.table_deletes@) + cfs_removed(
                *shard,
                sf.table_deletes@,
                cf as int,
            ),
        decreases NUM_CFS - cf,
    {
        assert(shard.cfs@[cf as int].wf());
        match rebuild_cf(&shard.cfs[cf], cf, sf, opened, &mut removed) {
            Some(n) => {
                new_cfs.push(n);
            },
            None => {
                assert(!split_levels_ok(*shard, *sf, opened@));
                return Err(Error::TablesOverlap);
            },
        }
        assert(removed@ =~= deleted_ids(shard.l0_tbls@, sf.table_deletes@) + cfs_removed(
            *shard,
            sf.table_deletes@,
            cf + 1,
        ));
        cf = cf + 1;
    }
    shard.l0_tbls = new_l0;
    shard.cfs = new_cfs;
    shard.split_stage = stage;
    Ok(removed)
}

} // verus!
