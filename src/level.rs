use std::sync::Arc;
use vstd::prelude::*;

use crate::change_set::TableCreate;
use crate::table::{
    insert_ordered, overlaps, pairwise_disjoint, table_ok, tables_ordered,
    total_size_of, Table,
};

verus! {

/// The tables of one level of one column family, kept in key order, with their
/// total size.
#[derive(Clone)]
pub struct LevelHandler {
    pub tables: Vec<Arc<Table>>,
    pub total_size: u64,
}

impl LevelHandler {
    /// Tables in key order without overlap, and the size total matching them.
    pub open spec fn wf(&self) -> bool {
        &&& tables_ordered(self.tables@)
        &&& self.total_size == total_size_of(self.tables@)
    }

    /// An empty level.
    pub fn new() -> (r: LevelHandler)
        ensures
            r.tables@.len() == 0,
            r.total_size == 0,
            r.wf(),
    {
        LevelHandler { tables: Vec::new(), total_size: 0 }
    }
}

/// The last table of `opened` with file id `id`.
pub open spec fn opened_table(opened: Seq<Arc<Table>>, id: u64) -> Option<Arc<Table>>
    decreases opened.len(),
{
    if opened.len() == 0 {
        None
    } else if opened.last().id == id {
        Some(opened.last())
    } else {
        opened_table(opened.drop_last(), id)
    }
}

/// Every id of `ids` has an opened table.
pub open spec fn all_opened(opened: Seq<Arc<Table>>, ids: Seq<u64>) -> bool {
    forall|i: int| 0 <= i < ids.len() ==> opened_table(opened, #[trigger] ids[i]) is Some
}

/// The file ids of `creates`, in their order.
pub open spec fn create_ids(creates: Seq<TableCreate>) -> Seq<u64> {
    creates.map_values(|c: TableCreate| c.id)
}

/// The opened tables of `ids`, in their order.
pub open spec fn opened_tables(opened: Seq<Arc<Table>>, ids: Seq<u64>) -> Seq<Arc<Table>> {
    ids.map_values(|id: u64| opened_table(opened, id)->Some_0)
}

/// The opened tables of the creates that go to column family `cf` and, where
/// `level` is given, to that level, in their order.
pub open spec fn selected(
    creates: Seq<TableCreate>,
    opened: Seq<Arc<Table>>,
    cf: int,
    level: Option<int>,
) -> Seq<Arc<Table>>
    decreases creates.len(),
{
    if creates.len() == 0 {
        seq![]
    } else {
        let p = selected(creates.drop_last(), opened, cf, level);
        let c = creates.last();
        if c.cf == cf && (level is None || level == Some(c.level as int)) {
            p.push(opened_table(opened, c.id)->Some_0)
        } else {
            p
        }
    }
}

/// The tables of `old` whose ids are not in `dels`, in their order.
pub open spec fn kept(old: Seq<Arc<Table>>, dels: Seq<u64>) -> Seq<Arc<Table>>
    decreases old.len(),
{
    if old.len() == 0 {
        seq![]
    } else {
        let p = kept(old.drop_last(), dels);
        if dels.contains(old.last().id) {
            p
        } else {
            p.push(old.last())
        }
    }
}

/// The ids of the tables of `old` whose ids are in `dels`, in their order.
pub open spec fn deleted_ids(old: Seq<Arc<Table>>, dels: Seq<u64>) -> Seq<u64>
    decreases old.len(),
{
    if old.len() == 0 {
        seq![]
    } else {
        let p = deleted_ids(old.drop_last(), dels);
        if dels.contains(old.last().id) {
            p.push(old.last().id)
        } else {
            p
        }
    }
}

/// A level bound as a mathematical integer.
pub open spec fn opt_int(level: Option<usize>) -> Option<int> {
    match level {
        Some(l) => Some(l as int),
        None => None,
    }
}

/// Whether `id` is among `ids`.
pub fn contains_id(ids: &Vec<u64>, id: u64) -> (r: bool)
    ensures
        r == ids@.contains(id),
{
    let mut i: usize = 0;
    while i < ids.len()
        invariant
            i <= ids@.len(),
            forall|k: int| 0 <= k < i ==> ids@[k] != id,
        decreases ids@.len() - i,
    {
        if ids[i] == id {
            assert(ids@[i as int] == id);
            return true;
        }
        i = i + 1;
    }
    false
}

/// The last opened table with file id `id`, if any.
pub fn find_opened(opened: &Vec<Arc<Table>>, id: u64) -> (r: Option<Arc<Table>>)
    ensures
        r == opened_table(opened@, id),
{
    let mut i: usize = opened.len();
    assert(opened@.take(i as int) =~= opened@);
    while i > 0
        invariant
            i <= opened@.len(),
            opened_table(opened@, id) == opened_table(opened@.take(i as int), id),
        decreases i,
    {
        assert(opened@.take(i as int).drop_last() =~= opened@.take(i - 1));
        if opened[i - 1].id == id {
            return Some(opened[i - 1].clone());
        }
        i = i - 1;
    }
    None
}

/// Whether every id of `ids` has an opened table.
pub fn check_opened(opened: &Vec<Arc<Table>>, ids: &Vec<u64>) -> (r: bool)
    ensures
        r == all_opened(opened@, ids@),
{
    let mut i: usize = 0;
    while i < ids.len()
        invariant
            i <= ids@.len(),
            all_opened(opened@, ids@.take(i as int)),
        decreases ids@.len() - i,
    {
        if find_opened(opened, ids[i]).is_none() {
            return false;
        }
        assert(ids@.take(i + 1)[i as int] == ids@[i as int]);
        assert forall|k: int| 0 <= k < i + 1 implies opened_table(
            opened@,
            #[trigger] ids@.take(i + 1)[k],
        ) is Some by {
            if k < i {
                assert(ids@.take(i as int)[k] == ids@.take(i + 1)[k]);
            }
        }
        i = i + 1;
    }
    assert(ids@.take(i as int) =~= ids@);
    true
}

/// The file ids of `creates`.
pub fn collect_create_ids(creates: &Vec<TableCreate>) -> (r: Vec<u64>)
    ensures
        r@ == create_ids(creates@),
{
    let mut r: Vec<u64> = Vec::new();
    let mut i: usize = 0;
    while i < creates.len()
        invariant
            i <= creates@.len(),
            r@ == create_ids(creates@.take(i as int)),
        decreases creates@.len() - i,
    {
        r.push(creates[i].id);
        i = i + 1;
        assert(r@ =~= create_ids(creates@.take(i as int)));
    }
    assert(creates@.take(i as int) =~= creates@);
    r
}

/// The opened tables of `ids`, all of which are opened.
pub fn collect_opened(opened: &Vec<Arc<Table>>, ids: &Vec<u64>) -> (r: Vec<Arc<Table>>)
    requires
        all_opened(opened@, ids@),
    ensures
        r@ == opened_tables(opened@, ids@),
{
    let mut r: Vec<Arc<Table>> = Vec::new();
    let mut i: usize = 0;
    while i < ids.len()
        invariant
            i <= ids@.len(),
            all_opened(opened@, ids@),
            r@ == opened_tables(opened@, ids@.take(i as int)),
        decreases ids@.len() - i,
    {
        let found = find_opened(opened, ids[i]);
        assert(opened_table(opened@, ids@[i as int]) is Some);
        match found {
            Some(t) => r.push(t),
            None => {},
        }
        i = i + 1;
        assert(r@ =~= opened_tables(opened@, ids@.take(i as int)));
    }
    assert(ids@.take(i as int) =~= ids@);
    r
}

/// The opened tables of the creates for column family `cf` (and `level`, where given).
pub fn select_creates(
    creates: &Vec<TableCreate>,
    opened: &Vec<Arc<Table>>,
    cf: usize,
    level: Option<usize>,
) -> (r: Vec<Arc<Table>>)
    requires
        all_opened(opened@, create_ids(creates@)),
    ensures
        r@ == selected(creates@, opened@, cf as int, opt_int(level)),
{
    let ghost lv = opt_int(level);
    let mut r: Vec<Arc<Table>> = Vec::new();
    let mut i: usize = 0;
    while i < creates.len()
        invariant
            i <= creates@.len(),
            all_opened(opened@, create_ids(creates@)),
            lv == opt_int(level),
            r@ == selected(creates@.take(i as int), opened@, cf as int, lv),
        decreases creates@.len() - i,
    {
        assert(creates@.take(i + 1).drop_last() =~= creates@.take(i as int));
        let c = &creates[i];
        assert(creates@.take(i + 1).last() == creates@[i as int]);
        let level_ok = match level {
            Some(l) => c.level == l,
            None => true,
        };
        assert(level_ok == (lv is None || lv == Some(c.level as int)));
        if c.cf == cf && level_ok {
            assert(create_ids(creates@)[i as int] == c.id);
            let found = find_opened(opened, c.id);
            match found {
                Some(t) => r.push(t),
                None => {},
            }
        }
        i = i + 1;
    }
    assert(creates@.take(i as int) =~= creates@);
    r
}

/// Splits `old` into the tables to keep and the ids of the tables that `dels` names.
pub fn partition_deletes(old: &Vec<Arc<Table>>, dels: &Vec<u64>) -> (r: (Vec<Arc<Table>>, Vec<u64>))
    ensures
        r.0@ == kept(old@, dels@),
        r.1@ == deleted_ids(old@, dels@),
{
    let mut keep: Vec<Arc<Table>> = Vec::new();
    let mut gone: Vec<u64> = Vec::new();
    let mut i: usize = 0;
    while i < old.len()
        invariant
            i <= old@.len(),
            keep@ == kept(old@.take(i as int), dels@),
            gone@ == deleted_ids(old@.take(i as int), dels@),
        decreases old@.len() - i,
    {
        assert(old@.take(i + 1).drop_last() =~= old@.take(i as int));
        let t = &old[i];
        if contains_id(dels, t.id) {
            gone.push(t.id);
        } else {
            keep.push(t.clone());
        }
        i = i + 1;
    }
    assert(old@.take(i as int) =~= old@);
    (keep, gone)
}

/// The capped total size of `tables`.
pub fn tables_total_size(tables: &Vec<Arc<Table>>) -> (r: u64)
    ensures
        r == total_size_of(tables@),
{
    let mut total: u64 = 0;
    let mut i: usize = 0;
    while i < tables.len()
        invariant
            i <= tables@.len(),
            total == total_size_of(tables@.take(i as int)),
        decreases tables@.len() - i,
    {
        assert(tables@.take(i + 1).drop_last() =~= tables@.take(i as int));
        let size = tables[i].size;
        if total > u64::MAX - size {
            total = u64::MAX;
        } else {
            total = total + size;
        }
        i = i + 1;
    }
    assert(tables@.take(i as int) =~= tables@);
    total
}

/// Arranges `items` in key order. Returns `None` exactly when no arrangement is a
/// valid level: some range is malformed or two ranges overlap.
pub fn build_ordered(items: &Vec<Arc<Table>>) -> (r: Option<Vec<Arc<Table>>>)
    ensures
        r is Some <==> pairwise_disjoint(items@),
        r matches Some(v) ==> tables_ordered(v@) && v@.to_multiset() =~= items@.to_multiset(),
{
    let mut v: Vec<Arc<Table>> = Vec::new();
    let mut i: usize = 0;
    assert(items@.take(0) =~= v@);
    while i < items.len()
        invariant
            i <= items@.len(),
            tables_ordered(v@),
            v@.to_multiset() =~= items@.take(i as int).to_multiset(),
            pairwise_disjoint(items@.take(i as int)),
        decreases items@.len() - i,
    {
        let t = items[i].clone();
        let ghost before_v = v@;
        let ghost p = items@.take(i as int);
        let ghost q = items@.take(i + 1);
        assert(q =~= p.push(t));
        proof {
            before_v.to_multiset_ensures();
            p.to_multiset_ensures();
            p.push(t).to_multiset_ensures();
        }
        if !insert_ordered(&mut v, t) {
            proof {
                if table_ok(t) {
                    let k = choose|k: int| 0 <= k < before_v.len() && overlaps(before_v[k], t);
                    assert(before_v.contains(before_v[k]));
                    assert(before_v.to_multiset() =~= p.to_multiset());
                    assert(before_v.to_multiset().count(before_v[k]) > 0);
                    assert(p.to_multiset().count(before_v[k]) > 0);
                    assert(p.contains(before_v[k]));
                    let j = choose|j: int| 0 <= j < p.len() && p[j] == before_v[k];
                    assert(items@[j] == p[j]);
                    assert(overlaps(items@[j], items@[i as int]));
                } else {
                    assert(!table_ok(items@[i as int]));
                }
            }
            return None;
        }
        proof {
            assert forall|a: int| 0 <= a < q.len() implies #[trigger] table_ok(q[a]) by {
                if a < i {
                    assert(table_ok(p[a]));
                }
            }
            assert forall|a: int, b: int|
                0 <= a < q.len() && 0 <= b < q.len() && a != b implies !#[trigger] overlaps(
                q[a],
                q[b],
            ) by {
                if a < i && b < i {
                    assert(!overlaps(p[a], p[b]));
                } else {
                    let x = if a < i {
                        a
                    } else {
                        b
                    };
                    assert(p.contains(p[x]));
                    assert(before_v.to_multiset().count(p[x]) > 0);
                    assert(before_v.contains(p[x]));
                    let k = choose|k: int| 0 <= k < before_v.len() && before_v[k] == p[x];
                    assert(!overlaps(before_v[k], t));
                }
            }
        }
        i = i + 1;
    }
    assert(items@.take(i as int) =~= items@);
    Some(v)
}

/// A level built from `items`: `None` exactly when the items cannot form a valid level.
pub fn build_level(items: &Vec<Arc<Table>>) -> (r: Option<LevelHandler>)
    ensures
        r is Some <==> pairwise_disjoint(items@),
        r matches Some(l) ==> l.wf() && l.tables@.to_multiset() =~= items@.to_multiset(),
{
    match build_ordered(items) {
        Some(tables) => {
            let total_size = tables_total_size(&tables);
            Some(LevelHandler { tables, total_size })
        },
        None => None,
    }
}

} // verus!
