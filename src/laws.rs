use std::sync::Arc;
use vstd::prelude::*;

use crate::apply::{change_applied, with_compacting, with_seq};
use crate::change_set::{Change, ChangeSet, Compaction};
use crate::compaction::{
    compaction_fits, compaction_outcome, l0_compaction_ok, level1_removed, move_down,
    other_levels_kept, without_ids,
};
use crate::keys::key_lt;
use crate::level::{all_opened, create_ids, deleted_ids, kept, selected};
use crate::shard::{Shard, SplitStage, NUM_CFS};
use crate::table::{before, lemma_ordered_smallest_increasing, Table};
use crate::Error;

verus! {

/// In every level of a well-formed shard, the tables are strictly ordered by
/// smallest key and each lies entirely before the next ones.
pub proof fn law_levels_ordered(s: Shard, cf: int, l: int, i: int, j: int)
    requires
        s.wf(),
        0 <= cf < NUM_CFS,
        0 <= l < s.cfs@[cf].levels@.len(),
        0 <= i < j < s.cfs@[cf].levels@[l].tables@.len(),
    ensures
        key_lt(
            s.cfs@[cf].levels@[l].tables@[i].smallest@,
            s.cfs@[cf].levels@[l].tables@[j].smallest@,
        ),
        before(s.cfs@[cf].levels@[l].tables@[i], s.cfs@[cf].levels@[l].tables@[j]),
{
    assert(s.cfs@[cf].wf());
    assert(s.cfs@[cf].levels@[l].wf());
    lemma_ordered_smallest_increasing(s.cfs@[cf].levels@[l].tables@, i, j);
}

/// Applying a change-set keeps the shard's id, version, and the sequence number
/// it records.
pub proof fn lemma_applied_keeps_identity(
    s0: Shard,
    s1: Shard,
    cs: ChangeSet,
    opened: Seq<Arc<Table>>,
    r: Result<Vec<u64>, Error>,
)
    requires
        change_applied(s0, s1, cs, opened, r),
    ensures
        s1.id == s0.id,
        s1.ver == s0.ver,
        s0.ver == cs.shard_ver && cs.sequence > s0.meta_seq ==> s1.meta_seq == cs.sequence,
        s0.ver == cs.shard_ver && cs.sequence <= s0.meta_seq ==> s1 == s0,
{
    if s0.ver == cs.shard_ver && cs.sequence > s0.meta_seq {
        let mid = with_seq(s0, cs.sequence);
        match cs.change {
            Change::Compaction(c) => {
                let w = with_compacting(s1, mid.compacting);
                assert(w.meta_seq == s1.meta_seq && w.id == s1.id && w.ver == s1.ver);
            },
            _ => {},
        }
    }
}

/// Applying the same change-set a second time changes nothing and, when the
/// version matches, succeeds with no file to remove.
pub proof fn law_reapply_is_noop(
    s0: Shard,
    s1: Shard,
    s2: Shard,
    cs: ChangeSet,
    opened: Seq<Arc<Table>>,
    r1: Result<Vec<u64>, Error>,
    r2: Result<Vec<u64>, Error>,
)
    requires
        change_applied(s0, s1, cs, opened, r1),
        change_applied(s1, s2, cs, opened, r2),
    ensures
        s2 == s1,
        s0.ver == cs.shard_ver ==> r2 is Ok && r2->Ok_0@.len() == 0,
{
    lemma_applied_keeps_identity(s0, s1, cs, opened, r1);
}

/// A change-set whose version differs from the shard's changes nothing and fails
/// with a version mismatch.
pub proof fn law_version_mismatch(
    s0: Shard,
    s1: Shard,
    cs: ChangeSet,
    opened: Seq<Arc<Table>>,
    r: Result<Vec<u64>, Error>,
)
    requires
        change_applied(s0, s1, cs, opened, r),
        s0.ver != cs.shard_ver,
    ensures
        s1 == s0,
        r == Err::<Vec<u64>, Error>(Error::ShardVersionMismatch),
{
}

/// A new split-files change-set arriving outside the pre-split-flush-done stage
/// fails with a wrong-stage error; the shard is unchanged but for the sequence
/// number it records.
pub proof fn law_split_wrong_stage(
    s0: Shard,
    s1: Shard,
    cs: ChangeSet,
    opened: Seq<Arc<Table>>,
    r: Result<Vec<u64>, Error>,
)
    requires
        change_applied(s0, s1, cs, opened, r),
        cs.change is SplitFiles,
        s0.ver == cs.shard_ver,
        cs.sequence > s0.meta_seq,
        s0.split_stage != SplitStage::PreSplitFlushDone,
    ensures
        r == Err::<Vec<u64>, Error>(Error::WrongSplitStage),
        s1 == with_seq(s0, cs.sequence),
        s1.l0_tbls == s0.l0_tbls,
        s1.cfs == s0.cfs,
        s1.split_stage == s0.split_stage,
{
}

/// The ids of `ids` are not in `without_ids(s, ids)`.
pub proof fn lemma_without_ids_excludes(s: Seq<u64>, ids: Seq<u64>, id: u64)
    requires
        ids.contains(id),
    ensures
        !without_ids(s, ids).contains(id),
    decreases s.len(),
{
    if s.len() > 0 {
        lemma_without_ids_excludes(s.drop_last(), ids, id);
    }
}

/// A compaction never returns a table it creates for removal, even when that
/// table is among its top deletes: a moved-down table is relocated, not destroyed.
pub proof fn law_move_down_keeps_created(
    old: Shard,
    new: Shard,
    comp: Compaction,
    opened: Seq<Arc<Table>>,
    r: Result<Vec<u64>, Error>,
    id: u64,
)
    requires
        compaction_outcome(old, new, comp, opened, r),
        move_down(comp),
        r is Ok,
        create_ids(comp.table_creates@).contains(id),
    ensures
        !r->Ok_0@.contains(id),
{
    if !comp.conflicted {
        if comp.level == 0 {
            lemma_without_ids_excludes(
                deleted_ids(old.l0_tbls@, comp.top_deletes@) + level1_removed(
                    old,
                    comp.bottom_deletes@,
                    NUM_CFS as int,
                ),
                create_ids(comp.table_creates@),
                id,
            );
        } else {
            let cf = comp.cf as int;
            let lo = comp.level - 1;
            let hi = comp.level as int;
            lemma_without_ids_excludes(
                deleted_ids(old.cfs@[cf].levels@[hi].tables@, comp.bottom_deletes@) + deleted_ids(
                    old.cfs@[cf].levels@[lo].tables@,
                    comp.top_deletes@,
                ),
                create_ids(comp.table_creates@),
                id,
            );
        }
    }
}

/// A conflicted compaction that is not a move-down leaves the shard as it was and
/// returns every table it created for removal.
pub proof fn law_conflicted_compaction(
    old: Shard,
    new: Shard,
    comp: Compaction,
    opened: Seq<Arc<Table>>,
    r: Result<Vec<u64>, Error>,
)
    requires
        compaction_outcome(old, new, comp, opened, r),
        comp.conflicted,
        !move_down(comp),
    ensures
        new == old,
        r is Ok,
        r->Ok_0@ == create_ids(comp.table_creates@),
{
}

/// With nothing deleted, `kept` keeps everything.
pub proof fn lemma_kept_all(s: Seq<Arc<Table>>, dels: Seq<u64>)
    requires
        deleted_ids(s, dels).len() == 0,
    ensures
        kept(s, dels) == s,
    decreases s.len(),
{
    if s.len() > 0 {
        if !dels.contains(s.last().id) {
            lemma_kept_all(s.drop_last(), dels);
            assert(s.drop_last().push(s.last()) =~= s);
        }
    }
}

/// A level-0 compaction whose tables are opened, whose top deletes fit the
/// level-0 list and whose level-1 updates do not overlap succeeds. It drops exactly
/// as many level-0 tables as it has top deletes, the oldest ones. Level 1 of every
/// column family then holds exactly its creates for that column family and its
/// tables not named among the bottom deletes, and the other levels stay as they were.
pub proof fn law_l0_compaction_shrinks(
    old: Shard,
    new: Shard,
    comp: Compaction,
    opened: Seq<Arc<Table>>,
    r: Result<Vec<u64>, Error>,
    cf: int,
)
    requires
        old.wf(),
        compaction_outcome(old, new, comp, opened, r),
        !comp.conflicted,
        comp.level == 0,
        comp.top_deletes@.len() <= old.l0_tbls@.len(),
        all_opened(opened, create_ids(comp.table_creates@)),
        l0_compaction_ok(old, comp, opened),
        0 <= cf < NUM_CFS,
    ensures
        r is Ok,
        new.l0_tbls@.len() == old.l0_tbls@.len() - comp.top_deletes@.len(),
        new.l0_tbls@ == old.l0_tbls@.take(old.l0_tbls@.len() - comp.top_deletes@.len()),
        new.cfs@[cf].levels@[0].tables@.to_multiset() == (selected(
            comp.table_creates@,
            opened,
            cf,
            None,
        ) + kept(old.cfs@[cf].levels@[0].tables@, comp.bottom_deletes@)).to_multiset(),
        new.cfs@[cf].levels@.len() == old.cfs@[cf].levels@.len(),
        forall|l: int|
            1 <= l < old.cfs@[cf].levels@.len() ==> new.cfs@[cf].levels@[l] == old.cfs@[cf].levels@[l],
{
    let lvl = old.cfs@[cf].levels@[0];
    let sel = selected(comp.table_creates@, opened, cf, None);
    assert(compaction_fits(old, comp));
    let updated = new.cfs@[cf].levels@[0];
    assert(other_levels_kept(old.cfs@[cf], new.cfs@[cf], 0));
    if sel.len() == 0 && deleted_ids(lvl.tables@, comp.bottom_deletes@).len() == 0 {
        lemma_kept_all(lvl.tables@, comp.bottom_deletes@);
        assert(sel + kept(lvl.tables@, comp.bottom_deletes@) =~= lvl.tables@);
    }
}

} // verus!
