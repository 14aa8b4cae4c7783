use std::sync::Arc;
use vstd::prelude::*;

use crate::change_set::{Change, ChangeSet, Flush};
use crate::compaction::{apply_compaction, compaction_outcome, is_move_down, move_down};
use crate::level::{collect_create_ids, create_ids, find_opened, opened_table};
use crate::shard::{estimated_size_of, Shard, SplitStage};
use crate::split::{apply_split_files, split_outcome};
use crate::table::Table;
use crate::Error;

verus! {

/// What applying flush `flush` to `old` gives. A created level-0 table goes in
/// front of the level-0 list and the oldest write buffer is dropped; the stage
/// becomes `stage` and the shard counts as flushed.
pub open spec fn flush_outcome(
    old: Shard,
    new: Shard,
    flush: Flush,
    stage: SplitStage,
    opened: Seq<Arc<Table>>,
    r: Result<(), Error>,
) -> bool {
    match flush.l0_create {
        Some(id) => if opened_table(opened, id) is None {
            r == Err::<(), Error>(Error::FileNotOpened) && new == old
        } else {
            &&& r is Ok
            &&& new.l0_tbls@ == seq![opened_table(opened, id)->Some_0] + old.l0_tbls@
            &&& new.mem_tables@ == (if old.mem_tables@.len() > 0 {
                old.mem_tables@.drop_last()
            } else {
                old.mem_tables@
            })
            &&& flushed_fields(old, new, stage)
        },
        None => {
            &&& r is Ok
            &&& new.l0_tbls@ == old.l0_tbls@
            &&& new.mem_tables@ == old.mem_tables@
            &&& flushed_fields(old, new, stage)
        },
    }
}

/// The fields of a shard after a flush other than its level-0 list and write buffers.
pub open spec fn flushed_fields(old: Shard, new: Shard, stage: SplitStage) -> bool {
    &&& new.split_stage == stage
    &&& new.initial_flushed
    &&& new.id == old.id
    &&& new.ver == old.ver
    &&& new.meta_seq == old.meta_seq
    &&& new.compacting == old.compacting
    &&& new.cfs == old.cfs
    &&& new.estimated_size == old.estimated_size
}

/// `r` with its success value dropped.
pub open spec fn unit_result(r: Result<Vec<u64>, Error>) -> Result<(), Error> {
    match r {
        Ok(_) => Ok(()),
        Err(e) => Err(e),
    }
}

/// `old` with `meta_seq` set to `seq`.
pub open spec fn with_seq(old: Shard, seq: u64) -> Shard {
    Shard { meta_seq: seq, ..old }
}

/// `s` with `estimated_size` set to `e`.
pub open spec fn with_estimate(s: Shard, e: u64) -> Shard {
    Shard { estimated_size: e, ..s }
}

/// `s` with `compacting` set to `c`.
pub open spec fn with_compacting(s: Shard, c: bool) -> Shard {
    Shard { compacting: c, ..s }
}

/// What applying change-set `cs` to shard `old` gives. A version mismatch is an
/// error and a sequence number not above the last taken one is a duplicate:
/// neither changes anything. Otherwise the sequence number is recorded first, then
/// the change is applied; a compaction clears the compacting flag whatever its result,
/// and on success the estimated size is recomputed.
pub open spec fn change_applied(
    old: Shard,
    new: Shard,
    cs: ChangeSet,
    opened: Seq<Arc<Table>>,
    r: Result<Vec<u64>, Error>,
) -> bool {
    if old.ver != cs.shard_ver {
        r == Err::<Vec<u64>, Error>(Error::ShardVersionMismatch) && new == old
    } else if cs.sequence <= old.meta_seq {
        r is Ok && r->Ok_0@.len() == 0 && new == old
    } else {
        let mid = with_seq(old, cs.sequence);
        let body = with_estimate(new, mid.estimated_size);
        &&& r is Ok ==> new.estimated_size == estimated_size_of(new)
        &&& r is Err ==> new.estimated_size == mid.estimated_size
        &&& match cs.change {
            Change::Flush(f) => {
                &&& flush_outcome(mid, body, f, cs.stage, opened, unit_result(r))
                &&& r matches Ok(ids) ==> ids@.len() == 0
            },
            Change::Compaction(c) => {
                &&& !new.compacting
                &&& compaction_outcome(mid, with_compacting(body, mid.compacting), c, opened, r)
            },
            Change::SplitFiles(sf) => split_outcome(mid, body, sf, cs.stage, opened, r),
            _ => r is Ok && r->Ok_0@.len() == 0 && body == mid,
        }
    }
}

/// The file ids that `cs` refers to for fetching: the tables it creates, except
/// those that a move-down only relocates, in order and possibly repeated.
pub open spec fn prefetch_refs(cs: ChangeSet) -> Seq<u64> {
    match cs.change {
        Change::Flush(f) => match f.l0_create {
            Some(id) => seq![id],
            None => seq![],
        },
        Change::Compaction(c) => if move_down(c) {
            seq![]
        } else {
            create_ids(c.table_creates@)
        },
        Change::SplitFiles(sf) => sf.l0_creates@ + create_ids(sf.table_creates@),
        Change::Snapshot(sf) => sf.l0_creates@ + create_ids(sf.table_creates@),
        Change::Empty => seq![],
    }
}

/// `s` with each id kept at its first place only.
pub open spec fn unique_ids(s: Seq<u64>) -> Seq<u64>
    decreases s.len(),
{
    if s.len() == 0 {
        seq![]
    } else if unique_ids(s.drop_last()).contains(s.last()) {
        unique_ids(s.drop_last())
    } else {
        unique_ids(s.drop_last()).push(s.last())
    }
}

/// The file ids to fetch before `cs` is applied, each once.
pub open spec fn prefetch_ids(cs: ChangeSet) -> Seq<u64> {
    unique_ids(prefetch_refs(cs))
}

/// The file ids to open before `cs` is applied: the tables it creates. A
/// conflicted compaction is not applied, so its tables are not opened.
pub open spec fn open_ids(cs: ChangeSet) -> Seq<u64> {
    match cs.change {
        Change::Flush(f) => match f.l0_create {
            Some(id) => seq![id],
            None => seq![],
        },
        Change::Compaction(c) => if c.conflicted {
            seq![]
        } else {
            create_ids(c.table_creates@)
        },
        Change::SplitFiles(sf) => sf.l0_creates@ + create_ids(sf.table_creates@),
        _ => seq![],
    }
}

/// Whether applying `cs` to the shards `shards` gets past the checks that change
/// nothing: `Ok(true)` when the body will run, `Ok(false)` for a duplicate.
pub open spec fn admission(shards: Seq<Shard>, cs: ChangeSet) -> Result<bool, Error> {
    match shard_index(shards, cs.shard_id) {
        None => Err(Error::ShardNotFound),
        Some(i) => shard_admission(shards[i], cs),
    }
}

/// Whether applying `cs` to `shard` gets past the checks that change nothing:
/// `Ok(true)` when the body will run, `Ok(false)` for a duplicate.
pub open spec fn shard_admission(shard: Shard, cs: ChangeSet) -> Result<bool, Error> {
    if shard.ver != cs.shard_ver {
        Err(Error::ShardVersionMismatch)
    } else {
        Ok(cs.sequence > shard.meta_seq)
    }
}

/// Checks `cs` against `shard` without changing anything.
pub fn check_shard(shard: &Shard, cs: &ChangeSet) -> (r: Result<bool, Error>)
    ensures
        r == shard_admission(*shard, *cs),
{
    if shard.ver != cs.shard_ver {
        Err(Error::ShardVersionMismatch)
    } else {
        Ok(cs.sequence > shard.meta_seq)
    }
}

/// `s` with each id kept at its first place only.
pub fn dedup_ids(s: &Vec<u64>) -> (r: Vec<u64>)
    ensures
        r@ == unique_ids(s@),
        r@.no_duplicates(),
{
    let mut r: Vec<u64> = Vec::new();
    let mut i: usize = 0;
    while i < s.len()
        invariant
            i <= s@.len(),
            r@ == unique_ids(s@.take(i as int)),
            r@.no_duplicates(),
        decreases s@.len() - i,
    {
        assert(s@.take(i + 1).drop_last() =~= s@.take(i as int));
        assert(s@.take(i + 1).last() == s@[i as int]);
        if !crate::level::contains_id(&r, s[i]) {
            r.push(s[i]);
        }
        i = i + 1;
    }
    assert(s@.take(i as int) =~= s@);
    r
}

/// The index of the last shard of `shards` with id `id`.
pub open spec fn shard_index(shards: Seq<Shard>, id: u64) -> Option<int>
    decreases shards.len(),
{
    if shards.len() == 0 {
        None
    } else if shards.last().id == id {
        Some(shards.len() - 1)
    } else {
        shard_index(shards.drop_last(), id)
    }
}

/// The shards that change-sets are applied to.
pub struct Engine {
    pub shards: Vec<Shard>,
}

impl Engine {
    /// Every shard is well formed.
    pub open spec fn wf(&self) -> bool {
        forall|i: int| 0 <= i < self.shards@.len() ==> (#[trigger] self.shards@[i]).wf()
    }

    /// The index of the shard with id `id`, if the engine holds one.
    pub fn get_shard(&self, id: u64) -> (r: Option<usize>)
        ensures
            r matches Some(i) ==> shard_index(self.shards@, id) == Some(i as int),
            r is None ==> shard_index(self.shards@, id) is None,
    {
        let mut i: usize = self.shards.len();
        assert(self.shards@.take(i as int) =~= self.shards@);
        while i > 0
            invariant
                i <= self.shards@.len(),
                shard_index(self.shards@, id) == shard_index(self.shards@.take(i as int), id),
            decreases i,
        {
            assert(self.shards@.take(i as int).drop_last() =~= self.shards@.take(i - 1));
            if self.shards[i - 1].id == id {
                return Some(i - 1);
            }
            i = i - 1;
        }
        None
    }

    /// Applies a flush to `shard`: a created level-0 table goes in front of the
    /// level-0 list and the oldest write buffer is dropped, the stage becomes
    /// `cs.stage`, and the shard counts as flushed.
    pub fn apply_flush(shard: &mut Shard, cs: &ChangeSet, opened: &Vec<Arc<Table>>) -> (r: Result<
        (),
        Error,
    >)
        requires
            old(shard).wf(),
            cs.change is Flush,
        ensures
            final(shard).wf(),
            flush_outcome(*old(shard), *final(shard), cs.change->Flush_0, cs.stage, opened@, r),
    {
        let flush = match &cs.change {
            Change::Flush(f) => f,
            _ => {
                return Ok(());
            },
        };
        match flush.l0_create {
            Some(id) => {
                match find_opened(opened, id) {
                    Some(t) => {
                        let ghost old_l0 = shard.l0_tbls@;
                        shard.l0_tbls.insert(0, t);
                        assert(shard.l0_tbls@ =~= seq![t] + old_l0);
                        if shard.mem_tables.len() > 0 {
                            shard.mem_tables.pop();
                        }
                    },
                    None => {
                        return Err(Error::FileNotOpened);
                    },
                }
            },
            None => {},
        }
        shard.split_stage = cs.stage;
        shard.initial_flushed = true;
        Ok(())
    }

    /// Applies `cs` to `shard` and returns the ids of the files that are no longer
    /// referenced, to be removed once no reader can see the replaced tables.
    pub fn apply_to_shard(shard: &mut Shard, cs: &ChangeSet, opened: &Vec<Arc<Table>>) -> (r:
        Result<Vec<u64>, Error>)
        requires
            old(shard).wf(),
        ensures
            final(shard).wf(),
            change_applied(*old(shard), *final(shard), *cs, opened@, r),
    {
        if shard.ver != cs.shard_ver {
            return Err(Error::ShardVersionMismatch);
        }
        if cs.sequence <= shard.meta_seq {
            return Ok(Vec::new());
        }
        shard.meta_seq = cs.sequence;
        let r = match &cs.change {
            Change::Flush(_) => {
                match Engine::apply_flush(shard, cs, opened) {
                    Ok(()) => Ok(Vec::new()),
                    Err(e) => Err(e),
                }
            },
            Change::Compaction(comp) => {
                let ghost mid = *shard;
                let r = apply_compaction(shard, comp, opened);
                proof {
                    assert(with_compacting(*shard, mid.compacting) == *shard);
                }
                shard.compacting = false;
                r
            },
            Change::SplitFiles(sf) => apply_split_files(shard, sf, cs.stage, opened),
            _ => Ok(Vec::new()),
        };
        if r.is_ok() {
            shard.refresh_estimated_size();
        }
        r
    }

    /// Applies change-set `cs` to the shard it names and returns the ids of the
    /// files that are no longer referenced. `opened` holds the tables opened for
    /// the files that `cs` creates.
    pub fn apply_change_set(&mut self, cs: &ChangeSet, opened: &Vec<Arc<Table>>) -> (r: Result<
        Vec<u64>,
        Error,
    >)
        requires
            old(self).wf(),
        ensures
            final(self).wf(),
            final(self).shards@.len() == old(self).shards@.len(),
            shard_index(old(self).shards@, cs.shard_id) is None ==> r == Err::<Vec<u64>, Error>(
                Error::ShardNotFound,
            ) && final(self).shards@ == old(self).shards@,
            shard_index(old(self).shards@, cs.shard_id) matches Some(i) ==> change_applied(
                old(self).shards@[i],
                final(self).shards@[i],
                *cs,
                opened@,
                r,
            ) && forall|j: int|
                0 <= j < old(self).shards@.len() && j != i ==> final(self).shards@[j] == old(
                    self,
                ).shards@[j],
    {
        let idx = match self.get_shard(cs.shard_id) {
            Some(i) => i,
            None => {
                return Err(Error::ShardNotFound);
            },
        };
        proof {
            lemma_shard_index_in_range(self.shards@, cs.shard_id);
        }
        assert(self.shards@[idx as int].wf());
        let r = Engine::apply_to_shard(&mut self.shards[idx], cs, opened);
        r
    }

    /// The file ids to fetch before `cs` is applied.
    pub fn pre_load_files(cs: &ChangeSet) -> (r: Vec<u64>)
        ensures
            r@ == prefetch_ids(*cs),
            r@.no_duplicates(),
    {
        let refs: Vec<u64> = match &cs.change {
            Change::Flush(f) => match f.l0_create {
                Some(id) => vec![id],
                None => Vec::new(),
            },
            Change::Compaction(c) => if is_move_down(c) {
                Vec::new()
            } else {
                collect_create_ids(&c.table_creates)
            },
            Change::SplitFiles(sf) | Change::Snapshot(sf) => {
                let mut ids = sf.l0_creates.clone();
                assert(ids@ =~= sf.l0_creates@);
                let mut rest = collect_create_ids(&sf.table_creates);
                ids.append(&mut rest);
                ids
            },
            Change::Empty => Vec::new(),
        };
        assert(refs@ == prefetch_refs(*cs));
        dedup_ids(&refs)
    }

    /// The file ids to open before `cs` is applied.
    pub fn files_to_open(cs: &ChangeSet) -> (r: Vec<u64>)
        ensures
            r@ == open_ids(*cs),
    {
        match &cs.change {
            Change::Flush(f) => match f.l0_create {
                Some(id) => vec![id],
                None => Vec::new(),
            },
            Change::Compaction(c) => if c.conflicted {
                Vec::new()
            } else {
                collect_create_ids(&c.table_creates)
            },
            Change::SplitFiles(sf) => {
                let mut ids = sf.l0_creates.clone();
                assert(ids@ =~= sf.l0_creates@);
                let mut rest = collect_create_ids(&sf.table_creates);
                ids.append(&mut rest);
                ids
            },
            _ => Vec::new(),
        }
    }

    /// Checks `cs` against its shard without changing anything: the shard must
    /// exist and have the change-set's version; `Ok(false)` marks a duplicate,
    /// which `apply_change_set` would skip.
    pub fn check_change_set(&self, cs: &ChangeSet) -> (r: Result<bool, Error>)
        ensures
            r == admission(self.shards@, *cs),
    {
        match self.get_shard(cs.shard_id) {
            None => Err(Error::ShardNotFound),
            Some(i) => {
                proof {
                    lemma_shard_index_in_range(self.shards@, cs.shard_id);
                }
                check_shard(&self.shards[i], cs)
            },
        }
    }
}

/// A found shard index is in range.
pub proof fn lemma_shard_index_in_range(shards: Seq<Shard>, id: u64)
    ensures
        shard_index(shards, id) matches Some(i) ==> 0 <= i < shards.len() && shards[i].id == id,
    decreases shards.len(),
{
    if shards.len() > 0 && shards.last().id != id {
        lemma_shard_index_in_range(shards.drop_last(), id);
    }
}

} // verus!
