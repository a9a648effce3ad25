//! Executable entry lists keyed by names (or pairs of names), read through
//! the maps of `sorted`.

use vstd::prelude::*;

use crate::sorted::{
    emap, is_strict_total, lemma_emap_unique, lemma_sorted_insert, lemma_str_lt_strict_total,
    lemma_str_pair_lt_strict_total, sorted_by, str_lt, str_pair_lt, unique_keys,
};
use crate::text::{chars_of, lemma_seq_lt_total, lt_chars, seq_eq, seq_lt};

verus! {

pub open spec fn eviews<V: View>(s: Seq<(String, V)>) -> Seq<(Seq<char>, V::V)> {
    s.map_values(|p: (String, V)| (p.0@, p.1@))
}

pub open spec fn pviews<V: View>(s: Seq<((String, String), V)>) -> Seq<
    ((Seq<char>, Seq<char>), V::V),
> {
    s.map_values(|p: ((String, String), V)| ((p.0.0@, p.0.1@), p.1@))
}

/// `a < b` by code points.
pub fn name_lt(a: &str, b: &str) -> (r: bool)
    ensures
        r == seq_lt(a@, b@),
{
    let av = chars_of(a);
    let bv = chars_of(b);
    lt_chars(&av, &bv)
}

pub fn name_eq(a: &str, b: &str) -> (r: bool)
    ensures
        r == (a@ == b@),
{
    let av = chars_of(a);
    let bv = chars_of(b);
    seq_eq(&av, &bv)
}

/// `(a0, a1) < (b0, b1)`: by the first name, then by the second.
pub fn pair_lt(a: &(String, String), b: &(String, String)) -> (r: bool)
    ensures
        r == str_pair_lt()((a.0@, a.1@), (b.0@, b.1@)),
{
    if name_lt(a.0.as_str(), b.0.as_str()) {
        true
    } else if name_eq(a.0.as_str(), b.0.as_str()) {
        name_lt(a.1.as_str(), b.1.as_str())
    } else {
        false
    }
}

/// Position of the entry named `k`.
pub fn find_key<V: View>(v: &Vec<(String, V)>, k: &str) -> (r: Option<usize>)
    requires
        unique_keys(eviews(v@)),
    ensures
        match r {
            Some(i) => i < v.len() && v@[i as int].0@ == k@,
            None => !emap(eviews(v@)).contains_key(k@),
        },
{
    let mut i: usize = 0;
    while i < v.len()
        invariant
            i <= v.len(),
            forall|j: int| 0 <= j < i ==> v@[j].0@ != k@,
        decreases v.len() - i,
    {
        if name_eq(v[i].0.as_str(), k) {
            return Some(i);
        }
        i = i + 1;
    }
    proof {
        lemma_emap_unique(eviews(v@));
        if emap(eviews(v@)).contains_key(k@) {
            let j = choose|j: int| 0 <= j < eviews(v@).len() && eviews(v@)[j].0 == k@;
            assert(v@[j].0@ == k@);
        }
    }
    None
}

/// Inserts an entry with a new name, keeping names ascending.
pub fn insert_by_name<V: View>(out: &mut Vec<(String, V)>, k: String, v: V)
    requires
        sorted_by(eviews(old(out)@), str_lt()),
        !emap(eviews(old(out)@)).contains_key(k@),
    ensures
        sorted_by(eviews(final(out)@), str_lt()),
        emap(eviews(final(out)@)) == emap(eviews(old(out)@)).insert(k@, v@),
{
    let ghost e = eviews(out@);
    let mut i: usize = 0;
    while i < out.len() && name_lt(out[i].0.as_str(), k.as_str())
        invariant
            i <= out.len(),
            out@ == old(out)@,
            e == eviews(out@),
            forall|j: int| 0 <= j < i ==> str_lt()(#[trigger] e[j].0, k@),
        decreases out.len() - i,
    {
        i = i + 1;
    }
    proof {
        lemma_str_lt_strict_total();
        lemma_sorted_unique_keys_local(e);
        if i < out.len() {
            assert(emap(e).contains_key(e[i as int].0));
            lemma_seq_lt_total(e[i as int].0, k@);
        }
    }
    let ghost kv = k@;
    let ghost vv = v@;
    out.insert(i, (k, v));
    proof {
        assert(eviews(out@) =~= e.insert(i as int, (kv, vv)));
        lemma_sorted_insert(e, i as int, kv, vv, str_lt());
    }
}

proof fn lemma_sorted_unique_keys_local<V>(e: Seq<(Seq<char>, V)>)
    requires
        sorted_by(e, str_lt()),
        is_strict_total(str_lt()),
    ensures
        forall|i: int| 0 <= i < e.len() ==> #[trigger] emap(e).contains_key(e[i].0),
{
    crate::sorted::lemma_sorted_unique_keys(e, str_lt());
    lemma_emap_unique(e);
}

/// Inserts an entry with a new pair of names, keeping pairs ascending.
pub fn insert_by_pair<V: View>(out: &mut Vec<((String, String), V)>, k: (String, String), v: V)
    requires
        sorted_by(pviews(old(out)@), str_pair_lt()),
        !emap(pviews(old(out)@)).contains_key((k.0@, k.1@)),
    ensures
        sorted_by(pviews(final(out)@), str_pair_lt()),
        emap(pviews(final(out)@)) == emap(pviews(old(out)@)).insert((k.0@, k.1@), v@),
{
    let ghost e = pviews(out@);
    let ghost kk = (k.0@, k.1@);
    let mut i: usize = 0;
    while i < out.len() && pair_lt(&out[i].0, &k)
        invariant
            i <= out.len(),
            out@ == old(out)@,
            e == pviews(out@),
            kk == (k.0@, k.1@),
            forall|j: int| 0 <= j < i ==> str_pair_lt()(#[trigger] e[j].0, kk),
        decreases out.len() - i,
    {
        i = i + 1;
    }
    proof {
        lemma_str_pair_lt_strict_total();
        crate::sorted::lemma_sorted_unique_keys(e, str_pair_lt());
        lemma_emap_unique(e);
        if i < out.len() {
            assert(emap(e).contains_key(e[i as int].0));
            assert(e[i as int].0 != kk);
        }
    }
    let ghost vv = v@;
    out.insert(i, (k, v));
    proof {
        assert(pviews(out@) =~= e.insert(i as int, (kk, vv)));
        lemma_sorted_insert(e, i as int, kk, vv, str_pair_lt());
    }
}

} // verus!
