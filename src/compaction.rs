use std::sync::Arc;
use vstd::prelude::*;

use crate::change_set::{Compaction, TableCreate};
use crate::level::{
    all_opened, build_level, check_opened, collect_create_ids, create_ids, deleted_ids, kept,
    partition_deletes, select_creates, selected, LevelHandler,
};
use crate::shard::{Shard, ShardCF, NUM_CFS};
use crate::table::{pairwise_disjoint, Table};
use crate::Error;

verus! {

/// The tables of a level after merging in the creates of `cf` and dropping `dels`.
pub open spec fn level_contents(
    old: LevelHandler,
    creates: Seq<TableCreate>,
    opened: Seq<Arc<Table>>,
    cf: int,
    dels: Seq<u64>,
) -> Seq<Arc<Table>> {
    selected(creates, opened, cf, None) + kept(old.tables@, dels)
}

/// A create or a delete applies to the level.
pub open spec fn needs_update(
    old: LevelHandler,
    creates: Seq<TableCreate>,
    opened: Seq<Arc<Table>>,
    cf: int,
    dels: Seq<u64>,
) -> bool {
    selected(creates, opened, cf, None).len() > 0 || deleted_ids(old.tables@, dels).len() > 0
}

/// The update of the level can be carried out: it is skipped, or its tables form a valid level.
pub open spec fn update_ok(
    old: LevelHandler,
    creates: Seq<TableCreate>,
    opened: Seq<Arc<Table>>,
    cf: int,
    dels: Seq<u64>,
) -> bool {
    needs_update(old, creates, opened, cf, dels) ==> pairwise_disjoint(
        level_contents(old, creates, opened, cf, dels),
    )
}

/// `new` is the level `old` after the update: the same level when nothing applies,
/// else a valid level holding exactly the merged tables.
pub open spec fn level_updated(
    old: LevelHandler,
    new: LevelHandler,
    creates: Seq<TableCreate>,
    opened: Seq<Arc<Table>>,
    cf: int,
    dels: Seq<u64>,
) -> bool {
    if needs_update(old, creates, opened, cf, dels) {
        &&& new.wf()
        &&& new.tables@.to_multiset() == level_contents(
            old,
            creates,
            opened,
            cf,
            dels,
        ).to_multiset()
    } else {
        new == old
    }
}

/// `new` differs from `old` at most in level index `idx`.
pub open spec fn other_levels_kept(old: ShardCF, new: ShardCF, idx: int) -> bool {
    &&& new.levels@.len() == old.levels@.len()
    &&& forall|l: int| 0 <= l < old.levels@.len() && l != idx ==> new.levels@[l] == old.levels@[l]
}

/// The compaction moves tables one level down unchanged: it creates exactly the
/// tables it deletes from the upper level, in the same order.
pub open spec fn move_down(comp: Compaction) -> bool {
    &&& comp.top_deletes@.len() > 0
    &&& comp.top_deletes@ == create_ids(comp.table_creates@)
}

/// `s` without the ids in `ids`, in order.
pub open spec fn without_ids(s: Seq<u64>, ids: Seq<u64>) -> Seq<u64>
    decreases s.len(),
{
    if s.len() == 0 {
        seq![]
    } else if ids.contains(s.last()) {
        without_ids(s.drop_last(), ids)
    } else {
        without_ids(s.drop_last(), ids).push(s.last())
    }
}

/// Whether the compaction moves tables one level down unchanged.
pub fn is_move_down(comp: &Compaction) -> (r: bool)
    ensures
        r == move_down(*comp),
{
    let n = comp.top_deletes.len();
    if n == 0 || n != comp.table_creates.len() {
        return false;
    }
    let mut i: usize = 0;
    while i < n
        invariant
            n == comp.top_deletes@.len(),
            n == comp.table_creates@.len(),
            i <= n,
            forall|k: int| 0 <= k < i ==> comp.top_deletes@[k] == comp.table_creates@[k].id,
        decreases n - i,
    {
        if comp.top_deletes[i] != comp.table_creates[i].id {
            assert(comp.top_deletes@[i as int] != create_ids(comp.table_creates@)[i as int]);
            return false;
        }
        i = i + 1;
    }
    assert(comp.top_deletes@ =~= create_ids(comp.table_creates@));
    true
}

/// `s` without the ids in `ids`.
pub fn remove_ids(s: &Vec<u64>, ids: &Vec<u64>) -> (r: Vec<u64>)
    ensures
        r@ == without_ids(s@, ids@),
{
    let mut r: Vec<u64> = Vec::new();
    let mut i: usize = 0;
    while i < s.len()
        invariant
            i <= s@.len(),
            r@ == without_ids(s@.take(i as int), ids@),
        decreases s@.len() - i,
    {
        assert(s@.take(i + 1).drop_last() =~= s@.take(i as int));
        if !crate::level::contains_id(ids, s[i]) {
            r.push(s[i]);
        }
        i = i + 1;
    }
    assert(s@.take(i as int) =~= s@);
    r
}

/// The update of one level by a compaction: the creates of `cf` join the tables of
/// `old_level` not named in `del_ids`. `Ok(None)` when nothing applies and the level
/// stays as it is. On success the ids of the dropped tables are appended to `del_files`.
pub fn compaction_update_level_handler(
    old_level: &LevelHandler,
    cf: usize,
    creates: &Vec<TableCreate>,
    opened: &Vec<Arc<Table>>,
    del_ids: &Vec<u64>,
    del_files: &mut Vec<u64>,
) -> (r: Result<Option<LevelHandler>, Error>)
    requires
        all_opened(opened@, create_ids(creates@)),
    ensures
        r is Ok <==> update_ok(*old_level, creates@, opened@, cf as int, del_ids@),
        r matches Ok(None) ==> !needs_update(*old_level, creates@, opened@, cf as int, del_ids@),
        r matches Ok(Some(l)) ==> needs_update(*old_level, creates@, opened@, cf as int, del_ids@)
            && level_updated(*old_level, l, creates@, opened@, cf as int, del_ids@),
        r is Ok ==> final(del_files)@ == old(del_files)@ + deleted_ids(old_level.tables@, del_ids@),
        r is Err ==> r == Err::<Option<LevelHandler>, Error>(Error::TablesOverlap) && final(del_files)@
            == old(del_files)@,
{
    let mut items = select_creates(creates, opened, cf, None);
    let (mut keep, mut gone) = partition_deletes(&old_level.tables, del_ids);
    if items.len() == 0 && gone.len() == 0 {
        assert(gone@ =~= Seq::<u64>::empty());
        assert(del_files@ + gone@ =~= del_files@);
        return Ok(None);
    }
    items.append(&mut keep);
    match build_level(&items) {
        Some(level) => {
            del_files.append(&mut gone);
            Ok(Some(level))
        },
        None => Err(Error::TablesOverlap),
    }
}

/// The bookkeeping fields of `new` and `old` agree.
pub open spec fn same_scalars(old: Shard, new: Shard) -> bool {
    &&& new.id == old.id
    &&& new.ver == old.ver
    &&& new.meta_seq == old.meta_seq
    &&& new.split_stage == old.split_stage
    &&& new.compacting == old.compacting
    &&& new.initial_flushed == old.initial_flushed
    &&& new.mem_tables@ == old.mem_tables@
    &&& new.estimated_size == old.estimated_size
}

/// The compaction names levels and level-0 tables that the shard has.
pub open spec fn compaction_fits(shard: Shard, comp: Compaction) -> bool {
    if comp.level == 0 {
        comp.top_deletes@.len() <= shard.l0_tbls@.len()
    } else {
        comp.cf < NUM_CFS && comp.level + 1 <= shard.cfs@[comp.cf as int].levels@.len()
    }
}

/// `u` is what the update of `old` by the creates of `cf` and `dels` gives:
/// `None` when nothing applies.
pub open spec fn update_matches(
    old: LevelHandler,
    u: Option<LevelHandler>,
    creates: Seq<TableCreate>,
    opened: Seq<Arc<Table>>,
    cf: int,
    dels: Seq<u64>,
) -> bool {
    match u {
        None => !needs_update(old, creates, opened, cf, dels),
        Some(l) => needs_update(old, creates, opened, cf, dels) && level_updated(
            old,
            l,
            creates,
            opened,
            cf,
            dels,
        ),
    }
}

/// The ids that `dels` drops from level 1 of the first `n` column families, in order.
pub open spec fn level1_removed(shard: Shard, dels: Seq<u64>, n: int) -> Seq<u64>
    decreases n,
{
    if n <= 0 {
        seq![]
    } else {
        level1_removed(shard, dels, n - 1) + deleted_ids(shard.cfs@[n - 1].levels@[0].tables@, dels)
    }
}

/// Every column family's level 1 can take the compaction's creates and bottom deletes.
pub open spec fn l0_compaction_ok(shard: Shard, comp: Compaction, opened: Seq<Arc<Table>>) -> bool {
    forall|c: int|
        0 <= c < NUM_CFS ==> #[trigger] update_ok(
            shard.cfs@[c].levels@[0],
            comp.table_creates@,
            opened,
            c,
            comp.bottom_deletes@,
        )
}

/// The outcome of a level-0 compaction: level 1 of every column family updated,
/// the oldest `top_deletes.len()` level-0 tables gone, and the ids of the dropped
/// tables returned, except those that the compaction creates anew (they are
/// relocated, not destroyed); on overlap, nothing changed.
pub open spec fn l0_compacted(
    old: Shard,
    new: Shard,
    comp: Compaction,
    opened: Seq<Arc<Table>>,
    r: Result<Vec<u64>, Error>,
) -> bool {
    if l0_compaction_ok(old, comp, opened) {
        &&& r is Ok
        &&& r->Ok_0@ == without_ids(
            deleted_ids(old.l0_tbls@, comp.top_deletes@) + level1_removed(
                old,
                comp.bottom_deletes@,
                NUM_CFS as int,
            ),
            create_ids(comp.table_creates@),
        )
        &&& new.l0_tbls@ == old.l0_tbls@.take(old.l0_tbls@.len() - comp.top_deletes@.len())
        &&& new.cfs@.len() == NUM_CFS
        &&& forall|c: int|
            0 <= c < NUM_CFS ==> level_updated(
                old.cfs@[c].levels@[0],
                #[trigger] new.cfs@[c].levels@[0],
                comp.table_creates@,
                opened,
                c,
                comp.bottom_deletes@,
            ) && other_levels_kept(old.cfs@[c], new.cfs@[c], 0)
    } else {
        r == Err::<Vec<u64>, Error>(Error::TablesOverlap) && new == old
    }
}

/// Both levels of a compaction of level `comp.level > 0` can take their update.
pub open spec fn ln_compaction_ok(shard: Shard, comp: Compaction, opened: Seq<Arc<Table>>) -> bool {
    let cf = comp.cf as int;
    &&& update_ok(
        shard.cfs@[cf].levels@[comp.level as int],
        comp.table_creates@,
        opened,
        cf,
        comp.bottom_deletes@,
    )
    &&& update_ok(
        shard.cfs@[cf].levels@[comp.level - 1],
        seq![],
        opened,
        cf,
        comp.top_deletes@,
    )
}

/// The outcome of a compaction of level `comp.level > 0`: the creates join level
/// `comp.level + 1` while the bottom deletes leave it, the top deletes leave level
/// `comp.level`, and the ids dropped from both are returned, except those that the
/// compaction creates anew; on overlap, nothing changed.
pub open spec fn ln_compacted(
    old: Shard,
    new: Shard,
    comp: Compaction,
    opened: Seq<Arc<Table>>,
    r: Result<Vec<u64>, Error>,
) -> bool {
    let cf = comp.cf as int;
    let lo = comp.level - 1;
    let hi = comp.level as int;
    if ln_compaction_ok(old, comp, opened) {
        &&& r is Ok
        &&& r->Ok_0@ == without_ids(
            deleted_ids(old.cfs@[cf].levels@[hi].tables@, comp.bottom_deletes@) + deleted_ids(
                old.cfs@[cf].levels@[lo].tables@,
                comp.top_deletes@,
            ),
            create_ids(comp.table_creates@),
        )
        &&& new.l0_tbls@ == old.l0_tbls@
        &&& new.cfs@.len() == NUM_CFS
        &&& forall|c: int| 0 <= c < NUM_CFS && c != cf ==> new.cfs@[c] == old.cfs@[c]
        &&& new.cfs@[cf].levels@.len() == old.cfs@[cf].levels@.len()
        &&& level_updated(
            old.cfs@[cf].levels@[hi],
            new.cfs@[cf].levels@[hi],
            comp.table_creates@,
            opened,
            cf,
            comp.bottom_deletes@,
        )
        &&& level_updated(
            old.cfs@[cf].levels@[lo],
            new.cfs@[cf].levels@[lo],
            seq![],
            opened,
            cf,
            comp.top_deletes@,
        )
        &&& forall|l: int|
            0 <= l < old.cfs@[cf].levels@.len() && l != lo && l != hi ==> new.cfs@[cf].levels@[l]
                == old.cfs@[cf].levels@[l]
    } else {
        r == Err::<Vec<u64>, Error>(Error::TablesOverlap) && new == old
    }
}

/// What applying `comp` to `old` gives: `new` and the result `r`.
/// A conflicted compaction changes nothing and returns the files it created for
/// removal, none when it moves tables down. Otherwise the compaction must fit the
/// shard and have its tables opened, and then takes the level-0 or the upper path.
pub open spec fn compaction_outcome(
    old: Shard,
    new: Shard,
    comp: Compaction,
    opened: Seq<Arc<Table>>,
    r: Result<Vec<u64>, Error>,
) -> bool {
    &&& same_scalars(old, new)
    &&& if comp.conflicted {
        new == old && r is Ok && r->Ok_0@ == (if move_down(comp) {
            Seq::<u64>::empty()
        } else {
            create_ids(comp.table_creates@)
        })
    } else if !compaction_fits(old, comp) {
        new == old && r == Err::<Vec<u64>, Error>(Error::InvalidChangeSet)
    } else if !all_opened(opened, create_ids(comp.table_creates@)) {
        new == old && r == Err::<Vec<u64>, Error>(Error::FileNotOpened)
    } else if comp.level == 0 {
        l0_compacted(old, new, comp, opened, r)
    } else {
        ln_compacted(old, new, comp, opened, r)
    }
}

/// Applies a compaction to `shard` and returns the ids of the files that no level
/// references any more. A conflicted compaction changes nothing; unless it moves
/// tables down, the files it created are returned for removal.
pub fn apply_compaction(shard: &mut Shard, comp: &Compaction, opened: &Vec<Arc<Table>>) -> (r:
    Result<Vec<u64>, Error>)
    requires
        old(shard).wf(),
    ensures
        final(shard).wf(),
        compaction_outcome(*old(shard), *final(shard), *comp, opened@, r),
{
    if comp.conflicted {
        if is_move_down(comp) {
            return Ok(Vec::new());
        }
        return Ok(collect_create_ids(&comp.table_creates));
    }
    let fits = if comp.level == 0 {
        comp.top_deletes.len() <= shard.l0_tbls.len()
    } else {
        comp.cf < NUM_CFS && comp.level < shard.cfs[comp.cf].levels.len()
    };
    if !fits {
        return Err(Error::InvalidChangeSet);
    }
    let ids = collect_create_ids(&comp.table_creates);
    if !check_opened(opened, &ids) {
        return Err(Error::FileNotOpened);
    }
    if comp.level == 0 {
        compact_l0(shard, comp, opened)
    } else {
        compact_ln(shard, comp, opened)
    }
}

/// The level-0 path of `apply_compaction`.
fn compact_l0(shard: &mut Shard, comp: &Compaction, opened: &Vec<Arc<Table>>) -> (r: Result<
    Vec<u64>,
    Error,
>)
    requires
        old(shard).wf(),
        !comp.conflicted,
        comp.level == 0,
        compaction_fits(*old(shard), *comp),
        all_opened(opened@, create_ids(comp.table_creates@)),
    ensures
        final(shard).wf(),
        same_scalars(*old(shard), *final(shard)),
        l0_compacted(*old(shard), *final(shard), *comp, opened@, r),
{
    let ghost old_shard = *shard;
    let (_, mut del_files) = partition_deletes(&shard.l0_tbls, &comp.top_deletes);
    let mut updates: Vec<Option<LevelHandler>> = Vec::new();
    let mut cf: usize = 0;
    while cf < NUM_CFS
        invariant
            *shard == old_shard,
            shard.wf(),
            all_opened(opened@, create_ids(comp.table_creates@)),
            cf <= NUM_CFS,
            updates@.len() == cf,
            forall|c: int|
                0 <= c < cf ==> update_matches(
                    shard.cfs@[c].levels@[0],
                    #[trigger] updates@[c],
                    comp.table_creates@,
                    opened@,
                    c,
                    comp.bottom_deletes@,
                ),
            forall|c: int|
                0 <= c < cf ==> #[trigger] update_ok(
                    shard.cfs@[c].levels@[0],
                    comp.table_creates@,
                    opened@,
                    c,
                    comp.bottom_deletes@,
                ),
            del_files@ == deleted_ids(shard.l0_tbls@, comp.top_deletes@) + level1_removed(
                *shard,
                comp.bottom_deletes@,
                cf as int,
            ),
        decreases NUM_CFS - cf,
    {
        assert(shard.cfs@[cf as int].wf());
        let ghost before = del_files@;
        match compaction_update_level_handler(
            &shard.cfs[cf].levels[0],
            cf,
            &comp.table_creates,
            opened,
            &comp.bottom_deletes,
            &mut del_files,
        ) {
            Ok(u) => {
                updates.push(u);
                assert(updates@[cf as int] == u);
            },
            Err(e) => {
                assert(!l0_compaction_ok(old_shard, *comp, opened@));
                return Err(e);
            },
        }
        assert(del_files@ =~= deleted_ids(shard.l0_tbls@, comp.top_deletes@) + level1_removed(
            *shard,
            comp.bottom_deletes@,
            cf + 1,
        ));
        cf = cf + 1;
    }
    assert(l0_compaction_ok(old_shard, *comp, opened@));
    let mut c: usize = NUM_CFS;
    while c > 0
        invariant
            c <= NUM_CFS,
            updates@.len() == c,
            shard.wf(),
            same_scalars(old_shard, *shard),
            shard.l0_tbls@ == old_shard.l0_tbls@,
            shard.cfs@.len() == NUM_CFS,
            forall|k: int|
                0 <= k < c ==> update_matches(
                    old_shard.cfs@[k].levels@[0],
                    #[trigger] updates@[k],
                    comp.table_creates@,
                    opened@,
                    k,
                    comp.bottom_deletes@,
                ),
            forall|k: int| 0 <= k < c ==> #[trigger] shard.cfs@[k] == old_shard.cfs@[k],
            forall|k: int|
                c <= k < NUM_CFS ==> level_updated(
                    old_shard.cfs@[k].levels@[0],
                    #[trigger] shard.cfs@[k].levels@[0],
                    comp.table_creates@,
                    opened@,
                    k,
                    comp.bottom_deletes@,
                ) && other_levels_kept(old_shard.cfs@[k], shard.cfs@[k], 0),
        decreases c,
    {
        c = c - 1;
        let u = updates.pop();
        assert(shard.cfs@[c as int] == old_shard.cfs@[c as int]);
        assert(shard.cfs@[c as int].wf());
        let ghost prev = *shard;
        match u {
            Some(Some(level)) => {
                shard.cfs[c].levels[0] = level;
                assert(shard.cfs@[c as int].wf());
            },
            _ => {},
        }
        assert(forall|k: int| 0 <= k < NUM_CFS && k != c ==> shard.cfs@[k] == prev.cfs@[k]);
        assert(level_updated(
            old_shard.cfs@[c as int].levels@[0],
            shard.cfs@[c as int].levels@[0],
            comp.table_creates@,
            opened@,
            c as int,
            comp.bottom_deletes@,
        ));
        assert(other_levels_kept(old_shard.cfs@[c as int], shard.cfs@[c as int], 0));
    }
    let keep = shard.l0_tbls.len() - comp.top_deletes.len();
    shard.l0_tbls.truncate(keep);
    let created = collect_create_ids(&comp.table_creates);
    Ok(remove_ids(&del_files, &created))
}

/// The path of `apply_compaction` for a level above 0.
fn compact_ln(shard: &mut Shard, comp: &Compaction, opened: &Vec<Arc<Table>>) -> (r: Result<
    Vec<u64>,
    Error,
>)
    requires
        old(shard).wf(),
        !comp.conflicted,
        comp.level > 0,
        compaction_fits(*old(shard), *comp),
        all_opened(opened@, create_ids(comp.table_creates@)),
    ensures
        final(shard).wf(),
        same_scalars(*old(shard), *final(shard)),
        ln_compacted(*old(shard), *final(shard), *comp, opened@, r),
{
    let cf = comp.cf;
    let lo = comp.level - 1;
    let hi = comp.level;
    assert(shard.cfs@[cf as int].wf());
    let mut del_files: Vec<u64> = Vec::new();
    let upper = compaction_update_level_handler(
        &shard.cfs[cf].levels[hi],
        cf,
        &comp.table_creates,
        opened,
        &comp.bottom_deletes,
        &mut del_files,
    );
    let upper = match upper {
        Ok(u) => u,
        Err(e) => {
            return Err(e);
        },
    };
    let no_creates: Vec<TableCreate> = Vec::new();
    assert(no_creates@ =~= seq![]);
    assert(create_ids(no_creates@) =~= seq![]);
    let lower = compaction_update_level_handler(
        &shard.cfs[cf].levels[lo],
        cf,
        &no_creates,
        opened,
        &comp.top_deletes,
        &mut del_files,
    );
    let lower = match lower {
        Ok(u) => u,
        Err(e) => {
            return Err(e);
        },
    };
    let ghost old_shard = *shard;
    match upper {
        Some(level) => {
            shard.cfs[cf].levels[hi] = level;
        },
        None => {},
    }
    match lower {
        Some(level) => {
            shard.cfs[cf].levels[lo] = level;
        },
        None => {},
    }
    assert(shard.cfs@[cf as int].wf());
    let created = collect_create_ids(&comp.table_creates);
    Ok(remove_ids(&del_files, &created))
}

} // verus!
