use std::sync::Arc;
use vstd::prelude::*;

use crate::keys::{key_less, key_lt, lemma_key_lt_total, lemma_key_lt_transitive};

verus! {

/// An immutable sorted table: its file id, key range, size and commit timestamp
/// (the last one is meaningful for level-0 tables only).
pub struct Table {
    pub id: u64,
    pub smallest: Vec<u8>,
    pub biggest: Vec<u8>,
    pub size: u64,
    pub commit_ts: u64,
}

/// A table's key range is well formed: `smallest <= biggest`.
pub open spec fn table_ok(t: Arc<Table>) -> bool {
    !key_lt(t.biggest@, t.smallest@)
}

/// Every key of `a` sorts before every key of `b`.
pub open spec fn before(a: Arc<Table>, b: Arc<Table>) -> bool {
    key_lt(a.biggest@, b.smallest@)
}

/// The key ranges of `a` and `b` intersect.
pub open spec fn overlaps(a: Arc<Table>, b: Arc<Table>) -> bool {
    !before(a, b) && !before(b, a)
}

/// The order a level handler keeps: every table well formed, and for `i < j`
/// table `i` lies entirely before table `j`.
pub open spec fn tables_ordered(s: Seq<Arc<Table>>) -> bool {
    &&& forall|i: int| 0 <= i < s.len() ==> #[trigger] table_ok(s[i])
    &&& forall|i: int, j: int| 0 <= i < j < s.len() ==> #[trigger] before(s[i], s[j])
}

/// Some order of `s` is a valid level: all tables well formed, no two overlapping.
pub open spec fn pairwise_disjoint(s: Seq<Arc<Table>>) -> bool {
    &&& forall|i: int| 0 <= i < s.len() ==> #[trigger] table_ok(s[i])
    &&& forall|i: int, j: int|
        0 <= i < s.len() && 0 <= j < s.len() && i != j ==> !#[trigger] overlaps(s[i], s[j])
}

/// The sum of the sizes in `s`, capped at `u64::MAX`.
pub open spec fn total_size_of(s: Seq<Arc<Table>>) -> nat {
    let t = sum_sizes(s);
    if t > u64::MAX {
        u64::MAX as nat
    } else {
        t
    }
}

/// The sum of the sizes in `s`.
pub open spec fn sum_sizes(s: Seq<Arc<Table>>) -> nat
    decreases s.len(),
{
    if s.len() == 0 {
        0
    } else {
        sum_sizes(s.drop_last()) + s.last().size as nat
    }
}

/// `x <= y` and `y < z` give `x < z`.
pub proof fn lemma_le_lt(x: Seq<u8>, y: Seq<u8>, z: Seq<u8>)
    requires
        !key_lt(y, x),
        key_lt(y, z),
    ensures
        key_lt(x, z),
{
    lemma_key_lt_total(x, y);
    if x != y {
        lemma_key_lt_transitive(x, y, z);
    }
}

/// `x < y` and `y <= z` give `x < z`.
pub proof fn lemma_lt_le(x: Seq<u8>, y: Seq<u8>, z: Seq<u8>)
    requires
        key_lt(x, y),
        !key_lt(z, y),
    ensures
        key_lt(x, z),
{
    lemma_key_lt_total(y, z);
    if y != z {
        lemma_key_lt_transitive(x, y, z);
    }
}

/// `a` before `b`, `b` well formed and `b` before `c` give `a` before `c`.
pub proof fn lemma_before_chain(a: Arc<Table>, b: Arc<Table>, c: Arc<Table>)
    requires
        before(a, b),
        table_ok(b),
        before(b, c),
    ensures
        before(a, c),
{
    lemma_lt_le(a.biggest@, b.smallest@, b.biggest@);
    lemma_key_lt_transitive(a.biggest@, b.biggest@, c.smallest@);
}

/// In an ordered level the smallest keys strictly increase and no two tables overlap.
pub proof fn lemma_ordered_smallest_increasing(s: Seq<Arc<Table>>, i: int, j: int)
    requires
        tables_ordered(s),
        0 <= i < j < s.len(),
    ensures
        key_lt(s[i].smallest@, s[j].smallest@),
        !overlaps(s[i], s[j]),
{
    assert(table_ok(s[i]));
    assert(before(s[i], s[j]));
    lemma_le_lt(s[i].smallest@, s[i].biggest@, s[j].smallest@);
}

/// Whether `tables` is a valid level: every range well formed and each table
/// entirely before the next.
pub fn assert_tables_order(tables: &Vec<Arc<Table>>) -> (r: bool)
    ensures
        r == tables_ordered(tables@),
{
    let n = tables.len();
    if n == 0 {
        return true;
    }
    if key_less(&tables[0].biggest, &tables[0].smallest) {
        assert(!table_ok(tables@[0]));
        return false;
    }
    let mut i: usize = 0;
    while i + 1 < n
        invariant
            n == tables@.len(),
            i < n,
            tables_ordered(tables@.take(i + 1)),
        decreases n - i,
    {
        let ti = &tables[i];
        let tj = &tables[i + 1];
        if key_less(&tj.biggest, &tj.smallest) {
            assert(!table_ok(tables@[i + 1]));
            return false;
        }
        if !key_less(&ti.biggest, &tj.smallest) {
            assert(!before(tables@[i as int], tables@[i + 1]));
            return false;
        }
        proof {
            let p = tables@.take(i + 1);
            let q = tables@.take(i + 2);
            assert forall|a: int, b: int| 0 <= a < b < q.len() implies #[trigger] before(
                q[a],
                q[b],
            ) by {
                if b < i + 1 {
                    assert(before(p[a], p[b]));
                } else if a < i {
                    assert(before(p[a], p[i as int]));
                    assert(table_ok(p[i as int]));
                    lemma_before_chain(q[a], q[i as int], q[b]);
                }
            }
            assert forall|a: int| 0 <= a < q.len() implies #[trigger] table_ok(q[a]) by {
                if a < i + 1 {
                    assert(table_ok(p[a]));
                }
            }
        }
        i = i + 1;
    }
    assert(tables@.take(i + 1) =~= tables@);
    true
}

/// Inserts `t` into the ordered `v` at the place its key range belongs.
/// Fails, leaving `v` as it was, when `t` is malformed or overlaps a table of `v`.
pub fn insert_ordered(v: &mut Vec<Arc<Table>>, t: Arc<Table>) -> (r: bool)
    requires
        tables_ordered(old(v)@),
    ensures
        r == (table_ok(t) && forall|k: int|
            0 <= k < old(v)@.len() ==> !#[trigger] overlaps(old(v)@[k], t)),
        r ==> tables_ordered(final(v)@) && final(v)@.to_multiset() =~= old(v)@.to_multiset().insert(
            t,
        ),
        !r ==> final(v)@ == old(v)@,
{
    if key_less(&t.biggest, &t.smallest) {
        return false;
    }
    let n = v.len();
    let mut i: usize = 0;
    while i < n && key_less(&v[i].biggest, &t.smallest)
        invariant
            n == v@.len(),
            i <= n,
            forall|k: int| 0 <= k < i ==> #[trigger] before(v@[k], t),
        decreases n - i,
    {
        i = i + 1;
    }
    let mut k: usize = i;
    while k < n
        invariant
            n == v@.len(),
            i <= k <= n,
            tables_ordered(v@),
            forall|m: int| 0 <= m < i ==> #[trigger] before(v@[m], t),
            i < n ==> !before(v@[i as int], t),
            forall|m: int| i <= m < k ==> #[trigger] before(t, v@[m]),
        decreases n - k,
    {
        if !key_less(&t.biggest, &v[k].smallest) {
            proof {
                if before(v@[k as int], t) {
                    if k > i {
                        assert(before(v@[i as int], v@[k as int]));
                        assert(table_ok(v@[k as int]));
                        lemma_before_chain(v@[i as int], v@[k as int], t);
                    }
                }
                assert(overlaps(v@[k as int], t));
            }
            return false;
        }
        k = k + 1;
    }
    proof {
        assert forall|m: int| 0 <= m < n implies !#[trigger] overlaps(v@[m], t) by {
            if m < i {
                assert(before(v@[m], t));
            } else {
                assert(before(t, v@[m]));
            }
        }
        vstd::seq_lib::to_multiset_insert(v@, i as int, t);
    }
    let ghost old_v = v@;
    v.insert(i, t);
    proof {
        let s = v@;
        assert(s == old_v.insert(i as int, t));
        assert forall|a: int| 0 <= a < s.len() implies #[trigger] table_ok(s[a]) by {
            if a < i {
                assert(table_ok(old_v[a]));
            } else if a > i {
                assert(table_ok(old_v[a - 1]));
            }
        }
        assert forall|a: int, b: int| 0 <= a < b < s.len() implies #[trigger] before(
            s[a],
            s[b],
        ) by {
            if b < i {
                assert(before(old_v[a], old_v[b]));
            } else if b == i {
                assert(before(old_v[a], t));
            } else if a < i {
                assert(before(old_v[a], old_v[b - 1]));
            } else if a == i {
                assert(before(t, old_v[b - 1]));
            } else {
                assert(before(old_v[a - 1], old_v[b - 1]));
            }
        }
    }
    true
}

} // verus!
