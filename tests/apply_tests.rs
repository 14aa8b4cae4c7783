use std::sync::Arc;

use kvengine_apply::apply::Engine;
use kvengine_apply::change_set::{Change, ChangeSet, Compaction, Flush, SplitFiles, TableCreate};
use kvengine_apply::keys::key_less;
use kvengine_apply::level::{build_ordered, LevelHandler};
use kvengine_apply::shard::{Shard, SplitStage, NUM_CFS};
use kvengine_apply::table::{assert_tables_order, insert_ordered, Table};
use kvengine_apply::Error;

fn table(id: u64, smallest: &[u8], biggest: &[u8], size: u64, commit_ts: u64) -> Arc<Table> {
    Arc::new(Table {
        id,
        smallest: smallest.to_vec(),
        biggest: biggest.to_vec(),
        size,
        commit_ts,
    })
}

fn new_shard() -> Shard {
    Shard::new(1, 1, &vec![3, 3, 3])
}

fn engine_with(shard: Shard) -> Engine {
    Engine { shards: vec![shard] }
}

fn ids(tables: &[Arc<Table>]) -> Vec<u64> {
    tables.iter().map(|t| t.id).collect()
}

fn change_set(sequence: u64, change: Change) -> ChangeSet {
    ChangeSet { shard_id: 1, shard_ver: 1, sequence, stage: SplitStage::Initial, change }
}

fn compaction(level: usize, cf: usize, creates: Vec<TableCreate>, top: Vec<u64>, bottom: Vec<u64>) -> Compaction {
    Compaction {
        cf,
        level,
        conflicted: false,
        table_creates: creates,
        top_deletes: top,
        bottom_deletes: bottom,
    }
}

fn put_level(shard: &mut Shard, cf: usize, level: usize, tables: Vec<Arc<Table>>) {
    let total: u64 = tables.iter().map(|t| t.size).sum();
    shard.cfs[cf].levels[level - 1] = LevelHandler { tables, total_size: total };
}

#[test]
fn flush_into_empty_shard() {
    let mut engine = engine_with(new_shard());
    let cs = change_set(1, Change::Flush(Flush { l0_create: Some(100) }));
    let opened = vec![table(100, b"a", b"z", 10, 1)];
    let r = engine.apply_change_set(&cs, &opened);
    assert_eq!(r, Ok(vec![]));
    let shard = &engine.shards[0];
    assert_eq!(ids(&shard.l0_tbls), vec![100]);
    assert!(shard.initial_flushed);
    assert_eq!(shard.meta_seq, 1);
    assert_eq!(shard.estimated_size, 10);
}

#[test]
fn compaction_l0_into_l1() {
    let mut shard = new_shard();
    shard.l0_tbls = vec![table(50, b"a", b"m", 5, 2), table(51, b"c", b"p", 6, 1)];
    let mut engine = engine_with(shard);
    let comp = compaction(0, 0, vec![TableCreate { id: 60, cf: 0, level: 1 }], vec![50, 51], vec![]);
    let cs = change_set(1, Change::Compaction(comp));
    let opened = vec![table(60, b"a", b"p", 9, 0)];
    let r = engine.apply_change_set(&cs, &opened).unwrap();
    let shard = &engine.shards[0];
    assert!(shard.l0_tbls.is_empty());
    assert_eq!(ids(&shard.cfs[0].levels[0].tables), vec![60]);
    assert_eq!(shard.cfs[0].levels[0].total_size, 9);
    assert!(shard.cfs[1].levels[0].tables.is_empty());
    let mut removed = r.clone();
    removed.sort();
    assert_eq!(removed, vec![50, 51]);
    assert!(!shard.compacting);
    assert_eq!(shard.estimated_size, 9);
}

#[test]
fn split_files_in_wrong_stage() {
    let mut shard = new_shard();
    shard.l0_tbls = vec![table(7, b"a", b"b", 1, 1)];
    let mut engine = engine_with(shard);
    let sf = SplitFiles { l0_creates: vec![8], table_creates: vec![], table_deletes: vec![7] };
    let cs = change_set(1, Change::SplitFiles(sf));
    let opened = vec![table(8, b"a", b"b", 1, 2)];
    let r = engine.apply_change_set(&cs, &opened);
    assert_eq!(r, Err(Error::WrongSplitStage));
    let shard = &engine.shards[0];
    assert_eq!(ids(&shard.l0_tbls), vec![7]);
    assert_eq!(shard.split_stage, SplitStage::Initial);
}

#[test]
fn duplicate_sequence_is_noop() {
    let mut engine = engine_with(new_shard());
    let cs = change_set(1, Change::Flush(Flush { l0_create: Some(100) }));
    let opened = vec![table(100, b"a", b"z", 10, 1)];
    assert_eq!(engine.apply_change_set(&cs, &opened), Ok(vec![]));
    assert_eq!(engine.apply_change_set(&cs, &opened), Ok(vec![]));
    assert_eq!(ids(&engine.shards[0].l0_tbls), vec![100]);
}

#[test]
fn version_mismatch_changes_nothing() {
    let mut engine = engine_with(new_shard());
    let mut cs = change_set(1, Change::Flush(Flush { l0_create: Some(100) }));
    cs.shard_ver = 2;
    let opened = vec![table(100, b"a", b"z", 10, 1)];
    assert_eq!(engine.apply_change_set(&cs, &opened), Err(Error::ShardVersionMismatch));
    assert!(engine.shards[0].l0_tbls.is_empty());
    assert_eq!(engine.shards[0].meta_seq, 0);
}

#[test]
fn unknown_shard_is_not_found() {
    let mut engine = engine_with(new_shard());
    let mut cs = change_set(1, Change::Empty);
    cs.shard_id = 9;
    assert_eq!(engine.apply_change_set(&cs, &vec![]), Err(Error::ShardNotFound));
}

#[test]
fn flush_of_unopened_table_fails() {
    let mut engine = engine_with(new_shard());
    let cs = change_set(1, Change::Flush(Flush { l0_create: Some(100) }));
    assert_eq!(engine.apply_change_set(&cs, &vec![]), Err(Error::FileNotOpened));
    assert!(engine.shards[0].l0_tbls.is_empty());
    assert_eq!(engine.shards[0].meta_seq, 1);
}

#[test]
fn flush_drops_oldest_write_buffer() {
    let mut shard = new_shard();
    shard.mem_tables = vec![3, 2, 1];
    shard.l0_tbls = vec![table(9, b"a", b"b", 1, 1)];
    let mut engine = engine_with(shard);
    let mut cs = change_set(4, Change::Flush(Flush { l0_create: Some(10) }));
    cs.stage = SplitStage::PreSplitFlushDone;
    let opened = vec![table(10, b"a", b"c", 2, 2)];
    assert_eq!(engine.apply_change_set(&cs, &opened), Ok(vec![]));
    let shard = &engine.shards[0];
    assert_eq!(ids(&shard.l0_tbls), vec![10, 9]);
    assert_eq!(shard.mem_tables, vec![3, 2]);
    assert_eq!(shard.split_stage, SplitStage::PreSplitFlushDone);
}

#[test]
fn move_down_keeps_created_table() {
    let mut shard = new_shard();
    put_level(&mut shard, 1, 1, vec![table(5, b"a", b"c", 3, 0), table(6, b"d", b"f", 4, 0)]);
    let mut engine = engine_with(shard);
    let comp = compaction(1, 1, vec![TableCreate { id: 5, cf: 1, level: 2 }], vec![5], vec![]);
    let opened = vec![table(5, b"a", b"c", 3, 0)];
    let r = engine.apply_change_set(&change_set(1, Change::Compaction(comp)), &opened);
    assert_eq!(r, Ok(vec![]));
    let shard = &engine.shards[0];
    assert_eq!(ids(&shard.cfs[1].levels[0].tables), vec![6]);
    assert_eq!(shard.cfs[1].levels[0].total_size, 4);
    assert_eq!(ids(&shard.cfs[1].levels[1].tables), vec![5]);
}

#[test]
fn compaction_between_upper_levels() {
    let mut shard = new_shard();
    put_level(&mut shard, 2, 1, vec![table(5, b"b", b"c", 3, 0)]);
    put_level(&mut shard, 2, 2, vec![table(7, b"a", b"b", 1, 0), table(8, b"c", b"e", 2, 0)]);
    let mut engine = engine_with(shard);
    let comp = compaction(
        1,
        2,
        vec![TableCreate { id: 20, cf: 2, level: 2 }, TableCreate { id: 21, cf: 2, level: 2 }],
        vec![5],
        vec![7, 8],
    );
    let opened = vec![table(21, b"c", b"e", 6, 0), table(20, b"a", b"b", 5, 0)];
    let mut r = engine.apply_change_set(&change_set(3, Change::Compaction(comp)), &opened).unwrap();
    r.sort();
    assert_eq!(r, vec![5, 7, 8]);
    let shard = &engine.shards[0];
    assert!(shard.cfs[2].levels[0].tables.is_empty());
    assert_eq!(ids(&shard.cfs[2].levels[1].tables), vec![20, 21]);
    assert_eq!(shard.cfs[2].levels[1].total_size, 11);
}

#[test]
fn conflicted_compaction_removes_its_creates() {
    let mut shard = new_shard();
    put_level(&mut shard, 0, 1, vec![table(5, b"a", b"c", 3, 0)]);
    let mut engine = engine_with(shard);
    let mut comp = compaction(1, 0, vec![TableCreate { id: 30, cf: 0, level: 2 }], vec![5], vec![]);
    comp.conflicted = true;
    engine.shards[0].compacting = true;
    let r = engine.apply_change_set(&change_set(1, Change::Compaction(comp)), &vec![]);
    assert_eq!(r, Ok(vec![30]));
    let shard = &engine.shards[0];
    assert_eq!(ids(&shard.cfs[0].levels[0].tables), vec![5]);
    assert!(shard.cfs[0].levels[1].tables.is_empty());
    assert!(!shard.compacting);
}

#[test]
fn conflicted_move_down_does_nothing() {
    let mut engine = engine_with(new_shard());
    let mut comp = compaction(1, 0, vec![TableCreate { id: 5, cf: 0, level: 2 }], vec![5], vec![]);
    comp.conflicted = true;
    let r = engine.apply_change_set(&change_set(1, Change::Compaction(comp)), &vec![]);
    assert_eq!(r, Ok(vec![]));
}

#[test]
fn overlapping_compaction_is_refused() {
    let mut shard = new_shard();
    put_level(&mut shard, 0, 2, vec![table(7, b"a", b"f", 1, 0)]);
    let mut engine = engine_with(shard);
    let comp = compaction(1, 0, vec![TableCreate { id: 20, cf: 0, level: 2 }], vec![], vec![]);
    let opened = vec![table(20, b"c", b"k", 5, 0)];
    let r = engine.apply_change_set(&change_set(2, Change::Compaction(comp)), &opened);
    assert_eq!(r, Err(Error::TablesOverlap));
    let shard = &engine.shards[0];
    assert_eq!(ids(&shard.cfs[0].levels[1].tables), vec![7]);
    assert_eq!(shard.meta_seq, 2);
}

#[test]
fn compaction_outside_the_shard_is_invalid() {
    let mut engine = engine_with(new_shard());
    let comp = compaction(3, 0, vec![], vec![], vec![]);
    let r = engine.apply_change_set(&change_set(1, Change::Compaction(comp)), &vec![]);
    assert_eq!(r, Err(Error::InvalidChangeSet));
    let comp = compaction(0, 0, vec![], vec![1], vec![]);
    let r = engine.apply_change_set(&change_set(2, Change::Compaction(comp)), &vec![]);
    assert_eq!(r, Err(Error::InvalidChangeSet));
}

#[test]
fn split_files_rebuilds_levels() {
    let mut shard = new_shard();
    shard.split_stage = SplitStage::PreSplitFlushDone;
    shard.l0_tbls = vec![table(1, b"a", b"z", 1, 5), table(2, b"a", b"z", 1, 3)];
    put_level(&mut shard, 0, 1, vec![table(3, b"a", b"c", 2, 0), table(4, b"d", b"f", 2, 0)]);
    let mut engine = engine_with(shard);
    let sf = SplitFiles {
        l0_creates: vec![10],
        table_creates: vec![TableCreate { id: 11, cf: 0, level: 1 }, TableCreate { id: 12, cf: 1, level: 3 }],
        table_deletes: vec![1, 4],
    };
    let mut cs = change_set(1, Change::SplitFiles(sf));
    cs.stage = SplitStage::SplitFileDone;
    let opened = vec![
        table(10, b"a", b"k", 1, 4),
        table(11, b"d", b"e", 7, 0),
        table(12, b"x", b"y", 8, 0),
    ];
    let mut r = engine.apply_change_set(&cs, &opened).unwrap();
    r.sort();
    assert_eq!(r, vec![1, 4]);
    let shard = &engine.shards[0];
    assert_eq!(ids(&shard.l0_tbls), vec![10, 2]);
    assert_eq!(ids(&shard.cfs[0].levels[0].tables), vec![3, 11]);
    assert_eq!(shard.cfs[0].levels[0].total_size, 9);
    assert_eq!(ids(&shard.cfs[1].levels[2].tables), vec![12]);
    assert_eq!(shard.split_stage, SplitStage::SplitFileDone);
}

#[test]
fn pre_load_skips_move_down() {
    let comp = compaction(1, 0, vec![TableCreate { id: 5, cf: 0, level: 2 }], vec![5], vec![]);
    assert_eq!(Engine::pre_load_files(&change_set(1, Change::Compaction(comp))), Vec::<u64>::new());
    let comp = compaction(1, 0, vec![TableCreate { id: 6, cf: 0, level: 2 }], vec![5], vec![]);
    assert_eq!(Engine::pre_load_files(&change_set(1, Change::Compaction(comp))), vec![6]);
    let sf = SplitFiles { l0_creates: vec![1, 2], table_creates: vec![TableCreate { id: 3, cf: 0, level: 1 }], table_deletes: vec![] };
    assert_eq!(Engine::pre_load_files(&change_set(1, Change::Snapshot(sf))), vec![1, 2, 3]);
    let cs = change_set(1, Change::Flush(Flush { l0_create: Some(4) }));
    assert_eq!(Engine::pre_load_files(&cs), vec![4]);
    let sf = SplitFiles { l0_creates: vec![2, 1, 2], table_creates: vec![TableCreate { id: 1, cf: 0, level: 1 }], table_deletes: vec![] };
    assert_eq!(Engine::pre_load_files(&change_set(1, Change::SplitFiles(sf))), vec![2, 1]);
}

#[test]
fn l0_move_down_keeps_created_table() {
    let mut shard = new_shard();
    shard.l0_tbls = vec![table(50, b"a", b"c", 3, 1)];
    let mut engine = engine_with(shard);
    let comp = compaction(0, 0, vec![TableCreate { id: 50, cf: 0, level: 1 }], vec![50], vec![]);
    let opened = vec![table(50, b"a", b"c", 3, 1)];
    let r = engine.apply_change_set(&change_set(1, Change::Compaction(comp)), &opened);
    assert_eq!(r, Ok(vec![]));
    let shard = &engine.shards[0];
    assert!(shard.l0_tbls.is_empty());
    assert_eq!(ids(&shard.cfs[0].levels[0].tables), vec![50]);
}

#[test]
fn files_to_open_skip_conflicted() {
    let comp = compaction(1, 0, vec![TableCreate { id: 30, cf: 0, level: 2 }], vec![5], vec![]);
    assert_eq!(Engine::files_to_open(&change_set(1, Change::Compaction(comp))), vec![30]);
    let mut comp = compaction(1, 0, vec![TableCreate { id: 30, cf: 0, level: 2 }], vec![5], vec![]);
    comp.conflicted = true;
    assert_eq!(Engine::files_to_open(&change_set(1, Change::Compaction(comp))), Vec::<u64>::new());
    let cs = change_set(1, Change::Flush(Flush { l0_create: Some(4) }));
    assert_eq!(Engine::files_to_open(&cs), vec![4]);
}

#[test]
fn check_change_set_admission() {
    let engine = engine_with(new_shard());
    assert_eq!(engine.check_change_set(&change_set(1, Change::Empty)), Ok(true));
    assert_eq!(engine.check_change_set(&change_set(0, Change::Empty)), Ok(false));
    let mut cs = change_set(1, Change::Empty);
    cs.shard_ver = 7;
    assert_eq!(engine.check_change_set(&cs), Err(Error::ShardVersionMismatch));
    cs.shard_id = 8;
    assert_eq!(engine.check_change_set(&cs), Err(Error::ShardNotFound));
}

#[test]
fn key_order_is_lexicographic() {
    assert!(key_less(b"a", b"b"));
    assert!(key_less(b"ab", b"abc"));
    assert!(!key_less(b"abc", b"ab"));
    assert!(!key_less(b"abc", b"abc"));
    assert!(key_less(b"", b"a"));
    assert!(!key_less(b"b", b"abc"));
}

#[test]
fn tables_order_check() {
    assert!(assert_tables_order(&vec![]));
    assert!(assert_tables_order(&vec![table(1, b"a", b"b", 1, 0), table(2, b"c", b"d", 1, 0)]));
    assert!(!assert_tables_order(&vec![table(1, b"a", b"c", 1, 0), table(2, b"c", b"d", 1, 0)]));
    assert!(!assert_tables_order(&vec![table(1, b"b", b"a", 1, 0)]));
    assert!(!assert_tables_order(&vec![table(2, b"c", b"d", 1, 0), table(1, b"a", b"b", 1, 0)]));
}

#[test]
fn ordered_insert_and_build() {
    let mut v = vec![table(1, b"a", b"b", 1, 0), table(3, b"e", b"f", 1, 0)];
    assert!(insert_ordered(&mut v, table(2, b"c", b"d", 1, 0)));
    assert_eq!(ids(&v), vec![1, 2, 3]);
    assert!(!insert_ordered(&mut v, table(4, b"d", b"e", 1, 0)));
    assert_eq!(ids(&v), vec![1, 2, 3]);
    let items = vec![table(3, b"e", b"f", 1, 0), table(1, b"a", b"b", 1, 0)];
    assert_eq!(ids(&build_ordered(&items).unwrap()), vec![1, 3]);
    let items = vec![table(3, b"e", b"f", 1, 0), table(1, b"a", b"e", 1, 0)];
    assert!(build_ordered(&items).is_none());
}

#[test]
fn new_shard_has_empty_levels() {
    let shard = Shard::new(4, 2, &vec![1, 2, 3]);
    assert_eq!(shard.cfs.len(), NUM_CFS);
    assert_eq!(shard.cfs[2].levels.len(), 3);
    assert_eq!(shard.split_stage, SplitStage::Initial);
}

#[test]
fn estimated_size_counts_levels_and_l0() {
    let mut shard = new_shard();
    shard.l0_tbls = vec![table(1, b"a", b"b", 5, 1)];
    put_level(&mut shard, 0, 2, vec![table(2, b"a", b"b", 7, 0)]);
    put_level(&mut shard, 2, 3, vec![table(3, b"a", b"b", 11, 0)]);
    shard.refresh_estimated_size();
    assert_eq!(shard.estimated_size, 23);
    put_level(&mut shard, 1, 1, vec![table(4, b"a", b"b", u64::MAX, 0)]);
    shard.refresh_estimated_size();
    assert_eq!(shard.estimated_size, u64::MAX);
}
