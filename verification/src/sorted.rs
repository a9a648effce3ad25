//! Lists of key/value entries read as maps: entries with distinct keys, and
//! entries sorted by a strict total order on keys.

use vstd::prelude::*;

use crate::text::{
    lemma_seq_lt_irreflexive, lemma_seq_lt_total, lemma_seq_lt_transitive, seq_lt,
};

verus! {

/// `lt` is irreflexive, transitive and total.
pub open spec fn is_strict_total<K>(lt: spec_fn(K, K) -> bool) -> bool {
    &&& forall|a: K| !#[trigger] lt(a, a)
    &&& forall|a: K, b: K, c: K| #[trigger] lt(a, b) && #[trigger] lt(b, c) ==> lt(a, c)
    &&& forall|a: K, b: K| a != b ==> #[trigger] lt(a, b) || #[trigger] lt(b, a)
}

/// Keys strictly ascending under `lt`.
pub open spec fn sorted_by<K, V>(e: Seq<(K, V)>, lt: spec_fn(K, K) -> bool) -> bool {
    forall|i: int, j: int| 0 <= i < j < e.len() ==> lt(#[trigger] e[i].0, #[trigger] e[j].0)
}

/// No key occurs twice.
pub open spec fn unique_keys<K, V>(e: Seq<(K, V)>) -> bool {
    forall|i: int, j: int| 0 <= i < j < e.len() ==> #[trigger] e[i].0 != #[trigger] e[j].0
}

/// The map a list of entries describes (a later entry overrides an earlier one).
pub open spec fn emap<K, V>(e: Seq<(K, V)>) -> Map<K, V>
    decreases e.len(),
{
    if e.len() == 0 {
        Map::empty()
    } else {
        emap(e.drop_last()).insert(e.last().0, e.last().1)
    }
}

/// The entries of `m` in ascending key order.
pub open spec fn sorted_entries<K, V>(m: Map<K, V>, lt: spec_fn(K, K) -> bool) -> Seq<(K, V)> {
    choose|e: Seq<(K, V)>| sorted_by(e, lt) && emap(e) == m
}

pub open spec fn str_lt() -> spec_fn(Seq<char>, Seq<char>) -> bool {
    |a: Seq<char>, b: Seq<char>| seq_lt(a, b)
}

/// Order on pairs of names: by the first, then by the second.
pub open spec fn str_pair_lt() -> spec_fn((Seq<char>, Seq<char>), (Seq<char>, Seq<char>)) -> bool {
    |p: (Seq<char>, Seq<char>), q: (Seq<char>, Seq<char>)|
        seq_lt(p.0, q.0) || (p.0 == q.0 && seq_lt(p.1, q.1))
}

pub proof fn lemma_str_lt_strict_total()
    ensures
        is_strict_total(str_lt()),
{
    assert forall|a: Seq<char>| !#[trigger] str_lt()(a, a) by {
        lemma_seq_lt_irreflexive(a);
    }
    assert forall|a: Seq<char>, b: Seq<char>, c: Seq<char>|
        #[trigger] str_lt()(a, b) && #[trigger] str_lt()(b, c) implies str_lt()(a, c) by {
        lemma_seq_lt_transitive(a, b, c);
    }
    assert forall|a: Seq<char>, b: Seq<char>| a != b implies #[trigger] str_lt()(a, b)
        || #[trigger] str_lt()(b, a) by {
        lemma_seq_lt_total(a, b);
    }
}

pub proof fn lemma_str_pair_lt_strict_total()
    ensures
        is_strict_total(str_pair_lt()),
{
    let lt = str_pair_lt();
    assert forall|a: (Seq<char>, Seq<char>)| !#[trigger] lt(a, a) by {
        lemma_seq_lt_irreflexive(a.0);
        lemma_seq_lt_irreflexive(a.1);
    }
    assert forall|a: (Seq<char>, Seq<char>), b: (Seq<char>, Seq<char>), c: (Seq<char>, Seq<char>)|
        #[trigger] lt(a, b) && #[trigger] lt(b, c) implies lt(a, c) by {
        if seq_lt(a.0, b.0) && seq_lt(b.0, c.0) {
            lemma_seq_lt_transitive(a.0, b.0, c.0);
        }
        if a.0 == b.0 && b.0 == c.0 && seq_lt(a.1, b.1) && seq_lt(b.1, c.1) {
            lemma_seq_lt_transitive(a.1, b.1, c.1);
        }
    }
    assert forall|a: (Seq<char>, Seq<char>), b: (Seq<char>, Seq<char>)| a != b implies #[trigger] lt(
        a,
        b,
    ) || #[trigger] lt(b, a) by {
        lemma_seq_lt_total(a.0, b.0);
        lemma_seq_lt_total(a.1, b.1);
    }
}

pub proof fn lemma_sorted_unique_keys<K, V>(e: Seq<(K, V)>, lt: spec_fn(K, K) -> bool)
    requires
        is_strict_total(lt),
        sorted_by(e, lt),
    ensures
        unique_keys(e),
{
    assert forall|i: int, j: int| 0 <= i < j < e.len() implies #[trigger] e[i].0 != #[trigger] e[
        j
    ].0 by {
        assert(lt(e[i].0, e[j].0));
    }
}

/// With distinct keys, the map holds exactly the entries' keys, each with its value.
pub proof fn lemma_emap_unique<K, V>(e: Seq<(K, V)>)
    requires
        unique_keys(e),
    ensures
        forall|i: int|
            0 <= i < e.len() ==> #[trigger] emap(e).contains_key(e[i].0) && emap(e)[e[i].0]
                == e[i].1,
        forall|k: K| #[trigger]
            emap(e).contains_key(k) ==> exists|i: int| 0 <= i < e.len() && e[i].0 == k,
        emap(e).dom().finite(),
        emap(e).dom().len() == e.len(),
    decreases e.len(),
{
    if e.len() > 0 {
        let d = e.drop_last();
        assert(unique_keys(d)) by {
            assert forall|i: int, j: int| 0 <= i < j < d.len() implies #[trigger] d[i].0
                != #[trigger] d[j].0 by {
                assert(d[i] == e[i] && d[j] == e[j]);
            }
        }
        lemma_emap_unique(d);
        assert forall|i: int| 0 <= i < e.len() implies #[trigger] emap(e).contains_key(e[i].0)
            && emap(e)[e[i].0] == e[i].1 by {
            if i < e.len() - 1 {
                assert(d[i] == e[i]);
                assert(emap(d).contains_key(d[i].0));
                assert(e[i].0 != e[e.len() - 1].0);
            }
        }
        assert forall|k: K| #[trigger] emap(e).contains_key(k) implies exists|i: int|
            0 <= i < e.len() && e[i].0 == k by {
            if k != e.last().0 {
                assert(emap(d).contains_key(k));
                let i = choose|i: int| 0 <= i < d.len() && d[i].0 == k;
                assert(e[i] == d[i]);
            } else {
                assert(e[e.len() - 1].0 == k);
            }
        }
        assert(!emap(d).contains_key(e.last().0)) by {
            if emap(d).contains_key(e.last().0) {
                let i = choose|i: int| 0 <= i < d.len() && d[i].0 == e.last().0;
                assert(d[i] == e[i]);
                assert(e[i].0 != e[e.len() - 1].0);
            }
        }
    }
}

/// Two sorted entry lists describing the same map are the same list.
pub proof fn lemma_sorted_entries_unique<K, V>(
    e1: Seq<(K, V)>,
    e2: Seq<(K, V)>,
    lt: spec_fn(K, K) -> bool,
)
    requires
        is_strict_total(lt),
        sorted_by(e1, lt),
        sorted_by(e2, lt),
        emap(e1) == emap(e2),
    ensures
        e1 == e2,
    decreases e1.len() + e2.len(),
{
    lemma_sorted_unique_keys(e1, lt);
    lemma_sorted_unique_keys(e2, lt);
    lemma_emap_unique(e1);
    lemma_emap_unique(e2);
    if e1.len() == 0 || e2.len() == 0 {
        if e1.len() > 0 {
            assert(emap(e1).contains_key(e1[0].0));
        }
        if e2.len() > 0 {
            assert(emap(e2).contains_key(e2[0].0));
        }
        assert(e1 =~= e2);
    } else {
        let l1 = e1.last();
        let l2 = e2.last();
        assert(emap(e1).contains_key(e1[e1.len() - 1].0));
        assert(emap(e2).contains_key(e2[e2.len() - 1].0));
        let i2 = choose|i: int| 0 <= i < e2.len() && e2[i].0 == l1.0;
        let i1 = choose|i: int| 0 <= i < e1.len() && e1[i].0 == l2.0;
        if i2 < e2.len() - 1 {
            assert(lt(e2[i2].0, e2[e2.len() - 1].0));
            if i1 < e1.len() - 1 {
                assert(lt(e1[i1].0, e1[e1.len() - 1].0));
                assert(lt(l1.0, l1.0));
            }
        } else if i1 < e1.len() - 1 {
            assert(lt(e1[i1].0, e1[e1.len() - 1].0));
        }
        assert(l1.0 == l2.0);
        let d1 = e1.drop_last();
        let d2 = e2.drop_last();
        assert(sorted_by(d1, lt)) by {
            assert forall|i: int, j: int| 0 <= i < j < d1.len() implies lt(
                #[trigger] d1[i].0,
                #[trigger] d1[j].0,
            ) by {
                assert(d1[i] == e1[i] && d1[j] == e1[j]);
            }
        }
        assert(sorted_by(d2, lt)) by {
            assert forall|i: int, j: int| 0 <= i < j < d2.len() implies lt(
                #[trigger] d2[i].0,
                #[trigger] d2[j].0,
            ) by {
                assert(d2[i] == e2[i] && d2[j] == e2[j]);
            }
        }
        lemma_sorted_unique_keys(d1, lt);
        lemma_sorted_unique_keys(d2, lt);
        lemma_emap_unique(d1);
        lemma_emap_unique(d2);
        assert(emap(d1) =~= emap(d2)) by {
            assert forall|k: K| emap(d1).contains_key(k) implies emap(d2).contains_key(k)
                && emap(d1)[k] == emap(d2)[k] by {
                let i = choose|i: int| 0 <= i < d1.len() && d1[i].0 == k;
                assert(d1[i] == e1[i]);
                assert(emap(e1).contains_key(e1[i].0));
                assert(emap(d1).contains_key(d1[i].0));
                assert(e1[i].0 != e1[e1.len() - 1].0);
                assert(emap(e2).contains_key(k));
                let j = choose|j: int| 0 <= j < e2.len() && e2[j].0 == k;
                assert(j != e2.len() - 1);
                assert(d2[j] == e2[j]);
                assert(emap(e2).contains_key(e2[j].0));
                assert(emap(d2).contains_key(d2[j].0));
            }
            assert forall|k: K| emap(d2).contains_key(k) implies emap(d1).contains_key(k) by {
                let i = choose|i: int| 0 <= i < d2.len() && d2[i].0 == k;
                assert(d2[i] == e2[i]);
                assert(e2[i].0 != e2[e2.len() - 1].0);
                assert(emap(e2).contains_key(e2[i].0));
                assert(emap(e1).contains_key(k));
                let j = choose|j: int| 0 <= j < e1.len() && e1[j].0 == k;
                assert(j != e1.len() - 1);
                assert(d1[j] == e1[j]);
                assert(emap(d1).contains_key(d1[j].0));
            }
        }
        assert(emap(e1)[l1.0] == l1.1);
        assert(emap(e2)[l2.0] == l2.1);
        lemma_sorted_entries_unique(d1, d2, lt);
        assert(e1 =~= d1.push(l1));
        assert(e2 =~= d2.push(l2));
    }
}

/// A sorted list describing `m` is the list `sorted_entries` names.
pub proof fn lemma_sorted_entries_is<K, V>(e: Seq<(K, V)>, m: Map<K, V>, lt: spec_fn(K, K) -> bool)
    requires
        is_strict_total(lt),
        sorted_by(e, lt),
        emap(e) == m,
    ensures
        sorted_entries(m, lt) == e,
{
    let c = sorted_entries(m, lt);
    assert(sorted_by(c, lt) && emap(c) == m);
    lemma_sorted_entries_unique(c, e, lt);
}

/// Inserting at the position that keeps the keys ascending adds the entry to
/// the map and keeps the list sorted.
pub proof fn lemma_sorted_insert<K, V>(
    e: Seq<(K, V)>,
    i: int,
    k: K,
    v: V,
    lt: spec_fn(K, K) -> bool,
)
    requires
        is_strict_total(lt),
        sorted_by(e, lt),
        0 <= i <= e.len(),
        forall|j: int| 0 <= j < i ==> lt(#[trigger] e[j].0, k),
        i < e.len() ==> lt(k, e[i].0),
    ensures
        sorted_by(e.insert(i, (k, v)), lt),
        emap(e.insert(i, (k, v))) == emap(e).insert(k, v),
        !emap(e).contains_key(k),
{
    let n = e.insert(i, (k, v));
    assert(sorted_by(n, lt)) by {
        assert forall|a: int, b: int| 0 <= a < b < n.len() implies lt(
            #[trigger] n[a].0,
            #[trigger] n[b].0,
        ) by {
            if b < i {
                assert(n[a] == e[a] && n[b] == e[b]);
            } else if b == i {
                assert(n[a] == e[a]);
            } else if a == i {
                assert(n[b] == e[b - 1]);
                if b - 1 > i {
                    assert(lt(e[i].0, e[b - 1].0));
                }
            } else if a < i {
                assert(n[a] == e[a] && n[b] == e[b - 1]);
            } else {
                assert(n[a] == e[a - 1] && n[b] == e[b - 1]);
            }
        }
    }
    lemma_sorted_unique_keys(e, lt);
    lemma_sorted_unique_keys(n, lt);
    lemma_emap_unique(e);
    lemma_emap_unique(n);
    assert(!emap(e).contains_key(k)) by {
        if emap(e).contains_key(k) {
            let j = choose|j: int| 0 <= j < e.len() && e[j].0 == k;
            if j < i {
                assert(lt(e[j].0, k));
            } else {
                if j > i {
                    assert(lt(e[i].0, e[j].0));
                }
                assert(lt(k, e[i].0));
            }
        }
    }
    let t = emap(e).insert(k, v);
    assert(emap(n) =~= t) by {
        assert forall|key: K| #[trigger] t.contains_key(key) implies emap(n).contains_key(key)
            && emap(n)[key] == t[key] by {
            if key != k {
                assert(emap(e).contains_key(key));
                let j = choose|j: int| 0 <= j < e.len() && e[j].0 == key;
                assert(emap(e).contains_key(e[j].0));
                if j < i {
                    assert(n[j] == e[j]);
                    assert(emap(n).contains_key(n[j].0));
                } else {
                    assert(n[j + 1] == e[j]);
                    assert(emap(n).contains_key(n[j + 1].0));
                }
            } else {
                assert(n[i] == (k, v));
                assert(emap(n).contains_key(n[i].0));
            }
        }
        assert forall|key: K| #[trigger] emap(n).contains_key(key) implies t.contains_key(key) by {
            let j = choose|j: int| 0 <= j < n.len() && n[j].0 == key;
            if j < i {
                assert(n[j] == e[j]);
                assert(emap(e).contains_key(e[j].0));
            } else if j > i {
                assert(n[j] == e[j - 1]);
                assert(emap(e).contains_key(e[j - 1].0));
            }
        }
    }
}

/// Replacing the value of the entry at `i` updates the map at its key.
pub proof fn lemma_emap_update<K, V>(e: Seq<(K, V)>, i: int, v: V)
    requires
        unique_keys(e),
        0 <= i < e.len(),
    ensures
        unique_keys(e.update(i, (e[i].0, v))),
        emap(e.update(i, (e[i].0, v))) == emap(e).insert(e[i].0, v),
{
    let n = e.update(i, (e[i].0, v));
    assert(unique_keys(n)) by {
        assert forall|a: int, b: int| 0 <= a < b < n.len() implies #[trigger] n[a].0
            != #[trigger] n[b].0 by {
            assert(n[a].0 == e[a].0 && n[b].0 == e[b].0);
        }
    }
    lemma_emap_unique(e);
    lemma_emap_unique(n);
    let t = emap(e).insert(e[i].0, v);
    assert(emap(n) =~= t) by {
        assert forall|k: K| #[trigger] t.contains_key(k) implies emap(n).contains_key(k)
            && emap(n)[k] == t[k] by {
            if k == e[i].0 {
                assert(emap(n).contains_key(n[i].0));
            } else {
                assert(emap(e).contains_key(k));
                let j = choose|j: int| 0 <= j < e.len() && e[j].0 == k;
                assert(n[j] == e[j]);
                assert(emap(n).contains_key(n[j].0));
            }
        }
        assert forall|k: K| #[trigger] emap(n).contains_key(k) implies t.contains_key(k) by {
            let j = choose|j: int| 0 <= j < n.len() && n[j].0 == k;
            if j != i {
                assert(n[j] == e[j]);
                assert(emap(e).contains_key(e[j].0));
            }
        }
    }
}

/// Appending an entry with a new key adds it to the map.
pub proof fn lemma_emap_push<K, V>(e: Seq<(K, V)>, k: K, v: V)
    requires
        unique_keys(e),
        !emap(e).contains_key(k),
    ensures
        unique_keys(e.push((k, v))),
        emap(e.push((k, v))) == emap(e).insert(k, v),
{
    let n = e.push((k, v));
    lemma_emap_unique(e);
    assert(unique_keys(n)) by {
        assert forall|a: int, b: int| 0 <= a < b < n.len() implies #[trigger] n[a].0
            != #[trigger] n[b].0 by {
            if b == e.len() {
                assert(n[a] == e[a]);
                assert(emap(e).contains_key(e[a].0));
            } else {
                assert(n[a] == e[a] && n[b] == e[b]);
            }
        }
    }
    assert(n.drop_last() =~= e);
}

} // verus!
