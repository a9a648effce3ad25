//! Merging a stored `Cookie` header with the `Set-Cookie` headers of a
//! response into the next `Cookie` header sent for a source.

use vstd::prelude::*;

use crate::sorted::{
    emap, lemma_emap_unique, lemma_sorted_entries_is, lemma_sorted_unique_keys,
    lemma_str_lt_strict_total, sorted_by, sorted_entries, str_lt, unique_keys,
};
use crate::text::{
    before_first, before_first_vec, chars_of, lemma_seq_lt_total, lemma_seq_lt_transitive, lt_chars, push_all, seq_eq, seq_lt, split,
    split_once, split_once_vec, split_vec, string_of, trim, trim_vec, views,
};

verus! {

pub type Pair = (Seq<char>, Seq<char>);

/// The name/value pair a cookie segment carries: the segment is trimmed, cut
/// at its first '=', and both halves trimmed; a pair with an empty name or
/// an empty value is dropped.
pub open spec fn parse_cookie_pair(seg: Seq<char>) -> Option<Pair> {
    match split_once(trim(seg), '=') {
        None => None,
        Some(kv) => {
            let key = trim(kv.0);
            let val = trim(kv.1);
            if key.len() == 0 || val.len() == 0 {
                None
            } else {
                Some((key, val))
            }
        },
    }
}

/// The segments in the order they are read: every ';'-separated piece of the
/// stored header, then the part before the first ';' of each `Set-Cookie`.
pub open spec fn cookie_segments(existing: Option<Seq<char>>, set_cookies: Seq<Seq<char>>) -> Seq<
    Seq<char>,
> {
    let head = match existing {
        Some(e) => split(e, ';'),
        None => Seq::<Seq<char>>::empty(),
    };
    head + set_cookies.map_values(|h: Seq<char>| before_first(h, ';'))
}

/// Cookie name to value, a later segment overriding an earlier one.
pub open spec fn cookie_map(segs: Seq<Seq<char>>) -> Map<Seq<char>, Seq<char>>
    decreases segs.len(),
{
    if segs.len() == 0 {
        Map::empty()
    } else {
        let m = cookie_map(segs.drop_last());
        match parse_cookie_pair(segs.last()) {
            Some(p) => m.insert(p.0, p.1),
            None => m,
        }
    }
}

/// `name=value` entries joined with "; ".
pub open spec fn render_entries(e: Seq<Pair>) -> Seq<char>
    decreases e.len(),
{
    if e.len() == 0 {
        Seq::empty()
    } else if e.len() == 1 {
        e[0].0 + seq!['='] + e[0].1
    } else {
        render_entries(e.drop_last()) + seq![';', ' '] + e.last().0 + seq!['='] + e.last().1
    }
}

/// The header that the merge produces from a map of cookies: its entries in
/// ascending name order.
pub open spec fn render_map(m: Map<Seq<char>, Seq<char>>) -> Seq<char> {
    render_entries(sorted_entries(m, str_lt()))
}

pub open spec fn opt_view(o: Option<&str>) -> Option<Seq<char>> {
    match o {
        Some(s) => Some(s@),
        None => None,
    }
}

pub open spec fn string_views(v: Seq<String>) -> Seq<Seq<char>> {
    v.map_values(|h: String| h@)
}

pub open spec fn pair_views(v: Seq<(Vec<char>, Vec<char>)>) -> Seq<Pair> {
    v.map_values(|p: (Vec<char>, Vec<char>)| (p.0@, p.1@))
}

proof fn lemma_entries_map_sorted(e: Seq<Pair>)
    requires
        sorted_by(e, str_lt()),
    ensures
        unique_keys(e),
        forall|i: int|
            0 <= i < e.len() ==> #[trigger] emap(e).contains_key(e[i].0) && emap(e)[e[i].0]
                == e[i].1,
        forall|k: Seq<char>| #[trigger]
            emap(e).contains_key(k) ==> exists|i: int| 0 <= i < e.len() && e[i].0 == k,
{
    lemma_str_lt_strict_total();
    lemma_sorted_unique_keys(e, str_lt());
    lemma_emap_unique(e);
}

/// Inserts `(k, v)` into strictly sorted entries, replacing the value of an
/// entry with the same name.
fn insert_sorted(pairs: &mut Vec<(Vec<char>, Vec<char>)>, k: Vec<char>, v: Vec<char>)
    requires
        sorted_by(pair_views(old(pairs)@), str_lt()),
    ensures
        sorted_by(pair_views(final(pairs)@), str_lt()),
        emap(pair_views(final(pairs)@)) == emap(pair_views(old(pairs)@)).insert(
            k@,
            v@,
        ),
{
    let ghost old_e = pair_views(pairs@);
    let mut i: usize = 0;
    while i < pairs.len() && lt_chars(&pairs[i].0, &k)
        invariant
            i <= pairs.len(),
            pairs@ == old(pairs)@,
            old_e == pair_views(pairs@),
            forall|j: int| 0 <= j < i ==> seq_lt(#[trigger] old_e[j].0, k@),
        decreases pairs.len() - i,
    {
        i = i + 1;
    }
    proof {
        lemma_entries_map_sorted(old_e);
    }
    let ghost kv = k@;
    let ghost vv = v@;
    if i < pairs.len() && seq_eq(&pairs[i].0, &k) {
        pairs.set(i, (k, v));
        let ghost new_e = pair_views(pairs@);
        proof {
            assert(new_e =~= old_e.update(i as int, (kv, vv)));
            assert(sorted_by(new_e, str_lt())) by {
                assert forall|a: int, b: int| 0 <= a < b < new_e.len() implies seq_lt(
                    #[trigger] new_e[a].0,
                    #[trigger] new_e[b].0,
                ) by {
                    assert(new_e[a].0 == old_e[a].0);
                    assert(new_e[b].0 == old_e[b].0);
                }
            }
            lemma_entries_map_sorted(new_e);
            let target = emap(old_e).insert(kv, vv);
            assert(emap(new_e) =~= target) by {
                assert forall|key: Seq<char>| #[trigger] target.contains_key(key) implies emap(
                    new_e,
                ).contains_key(key) && emap(new_e)[key] == target[key] by {
                    if key != kv {
                        assert(emap(old_e).contains_key(key));
                        let j = choose|j: int| 0 <= j < old_e.len() && old_e[j].0 == key;
                        assert(new_e[j] == old_e[j]);
                        assert(emap(old_e).contains_key(old_e[j].0));
                        assert(emap(new_e).contains_key(new_e[j].0));
                    } else {
                        assert(new_e[i as int] == (kv, vv));
                        assert(emap(new_e).contains_key(new_e[i as int].0));
                    }
                }
                assert forall|key: Seq<char>| #[trigger] emap(new_e).contains_key(
                    key,
                ) implies target.contains_key(key) by {
                    let j = choose|j: int| 0 <= j < new_e.len() && new_e[j].0 == key;
                    if j != i {
                        assert(new_e[j] == old_e[j]);
                    }
                }
            }
        }
    } else {
        pairs.insert(i, (k, v));
        let ghost new_e = pair_views(pairs@);
        proof {
            assert(new_e =~= old_e.insert(i as int, (kv, vv)));
            if i < old_e.len() {
                lemma_seq_lt_total(old_e[i as int].0, kv);
            }
            assert(sorted_by(new_e, str_lt())) by {
                assert forall|a: int, b: int| 0 <= a < b < new_e.len() implies seq_lt(
                    #[trigger] new_e[a].0,
                    #[trigger] new_e[b].0,
                ) by {
                    if b < i {
                        assert(new_e[a] == old_e[a] && new_e[b] == old_e[b]);
                    } else if b == i {
                        assert(new_e[a] == old_e[a]);
                    } else if a == i {
                        assert(new_e[b] == old_e[b - 1]);
                        if b - 1 > i {
                            assert(seq_lt(old_e[i as int].0, old_e[b - 1].0));
                            lemma_seq_lt_transitive(kv, old_e[i as int].0, old_e[b - 1].0);
                        }
                    } else if a < i {
                        assert(new_e[a] == old_e[a] && new_e[b] == old_e[b - 1]);
                        if a != b - 1 {
                            assert(seq_lt(old_e[a].0, old_e[b - 1].0));
                        } else {
                            assert(false);
                        }
                    } else {
                        assert(new_e[a] == old_e[a - 1] && new_e[b] == old_e[b - 1]);
                    }
                }
            }
            lemma_entries_map_sorted(new_e);
            let target = emap(old_e).insert(kv, vv);
            assert(emap(new_e) =~= target) by {
                assert forall|key: Seq<char>| #[trigger] target.contains_key(key) implies emap(
                    new_e,
                ).contains_key(key) && emap(new_e)[key] == target[key] by {
                    if key != kv {
                        assert(emap(old_e).contains_key(key));
                        let j = choose|j: int| 0 <= j < old_e.len() && old_e[j].0 == key;
                        assert(emap(old_e).contains_key(old_e[j].0));
                        if j < i {
                            assert(new_e[j] == old_e[j]);
                            assert(emap(new_e).contains_key(new_e[j].0));
                        } else {
                            assert(new_e[j + 1] == old_e[j]);
                            assert(emap(new_e).contains_key(new_e[j + 1].0));
                        }
                    } else {
                        assert(new_e[i as int] == (kv, vv));
                        assert(emap(new_e).contains_key(new_e[i as int].0));
                    }
                }
                assert forall|key: Seq<char>| #[trigger] emap(new_e).contains_key(
                    key,
                ) implies target.contains_key(key) by {
                    let j = choose|j: int| 0 <= j < new_e.len() && new_e[j].0 == key;
                    if j < i {
                        assert(new_e[j] == old_e[j]);
                    } else if j > i {
                        assert(new_e[j] == old_e[j - 1]);
                    }
                }
            }
        }
    }
}

/// Adds the pair that `seg` carries, if any.
fn add_segment(pairs: &mut Vec<(Vec<char>, Vec<char>)>, seg: &Vec<char>)
    requires
        sorted_by(pair_views(old(pairs)@), str_lt()),
    ensures
        sorted_by(pair_views(final(pairs)@), str_lt()),
        emap(pair_views(final(pairs)@)) == match parse_cookie_pair(seg@) {
            Some(p) => emap(pair_views(old(pairs)@)).insert(p.0, p.1),
            None => emap(pair_views(old(pairs)@)),
        },
{
    let t = trim_vec(seg);
    match split_once_vec(&t, '=') {
        None => {},
        Some((k, v)) => {
            let key = trim_vec(&k);
            let val = trim_vec(&v);
            if key.len() == 0 || val.len() == 0 {
            } else {
                insert_sorted(pairs, key, val);
            }
        },
    }
}

/// Renders strictly sorted entries.
fn render(pairs: &Vec<(Vec<char>, Vec<char>)>) -> (r: Vec<char>)
    ensures
        r@ == render_entries(pair_views(pairs@)),
{
    let ghost e = pair_views(pairs@);
    let mut out: Vec<char> = Vec::new();
    let mut i: usize = 0;
    while i < pairs.len()
        invariant
            i <= pairs.len(),
            e == pair_views(pairs@),
            out@ == render_entries(e.take(i as int)),
        decreases pairs.len() - i,
    {
        if i > 0 {
            out.push(';');
            out.push(' ');
        }
        push_all(&mut out, &pairs[i].0);
        out.push('=');
        push_all(&mut out, &pairs[i].1);
        proof {
            let t = e.take(i + 1);
            assert(t.drop_last() =~= e.take(i as int));
            assert(t.last() == e[i as int]);
            if i == 0 {
                assert(t.len() == 1);
            }
        }
        i = i + 1;
        proof {
            assert(out@ =~= render_entries(e.take(i as int)));
        }
    }
    assert(e.take(pairs.len() as int) =~= e);
    out
}

/// The `Cookie` header that results from the stored one and the `Set-Cookie`
/// headers of a response: every name appears once, with the value last seen
/// for it, in ascending name order, as `name=value` joined with "; ". `None`
/// when no segment carries a usable pair.
pub fn merge_cookie_header_with_set_cookie(
    existing_cookie_header: Option<&str>,
    set_cookie_headers: &[String],
) -> (r: Option<String>)
    ensures
        ({
            let m = cookie_map(
                cookie_segments(opt_view(existing_cookie_header), string_views(set_cookie_headers@)),
            );
            &&& (r is None <==> m.dom().is_empty())
            &&& (r matches Some(s) ==> s@ == render_map(m))
        }),
{
    let ghost hs = string_views(set_cookie_headers@);
    let ghost segs = cookie_segments(opt_view(existing_cookie_header), hs);
    let mut pairs: Vec<(Vec<char>, Vec<char>)> = Vec::new();
    let ghost mut done: Seq<Seq<char>> = Seq::empty();
    proof {
        assert(pair_views(pairs@) =~= Seq::<Pair>::empty());
    }
    match existing_cookie_header {
        Some(existing) => {
            let ev = chars_of(existing);
            let parts = split_vec(&ev, ';');
            let mut i: usize = 0;
            while i < parts.len()
                invariant
                    i <= parts.len(),
                    views(parts@) == split(existing@, ';'),
                    sorted_by(pair_views(pairs@), str_lt()),
                    emap(pair_views(pairs@)) == cookie_map(views(parts@).take(i as int)),
                decreases parts.len() - i,
            {
                add_segment(&mut pairs, &parts[i]);
                proof {
                    let t = views(parts@).take(i + 1);
                    assert(t.drop_last() =~= views(parts@).take(i as int));
                    assert(t.last() == parts@[i as int]@);
                }
                i = i + 1;
            }
            proof {
                done = views(parts@);
                assert(views(parts@).take(parts.len() as int) =~= views(parts@));
            }
        },
        None => {},
    }
    proof {
        assert(segs =~= done + hs.map_values(|h: Seq<char>| before_first(h, ';')));
        assert(segs.take(done.len() as int) =~= done);
    }
    let mut j: usize = 0;
    while j < set_cookie_headers.len()
        invariant
            j <= set_cookie_headers.len(),
            hs == string_views(set_cookie_headers@),
            segs == done + hs.map_values(|h: Seq<char>| before_first(h, ';')),
            sorted_by(pair_views(pairs@), str_lt()),
            emap(pair_views(pairs@)) == cookie_map(segs.take(done.len() + j)),
        decreases set_cookie_headers.len() - j,
    {
        let hv = chars_of(set_cookie_headers[j].as_str());
        let first = before_first_vec(&hv, ';');
        add_segment(&mut pairs, &first);
        proof {
            let t = segs.take(done.len() + j + 1);
            assert(t.drop_last() =~= segs.take(done.len() + j));
            assert(t.last() == segs[done.len() + j]);
            assert(segs[done.len() + j] == before_first(hs[j as int], ';'));
        }
        j = j + 1;
    }
    proof {
        assert(segs.take(segs.len() as int) =~= segs);
        lemma_entries_map_sorted(pair_views(pairs@));
    }
    if pairs.len() == 0 {
        proof {
            assert(pair_views(pairs@) =~= Seq::<Pair>::empty());
        }
        None
    } else {
        let out = render(&pairs);
        proof {
            let e = pair_views(pairs@);
            assert(emap(e).contains_key(e[0].0));
            lemma_str_lt_strict_total();
            lemma_sorted_entries_is(e, emap(e), str_lt());
        }
        Some(string_of(&out))
    }
}

/// The `Cookie` header stored after a response that set `set_cookies`:
/// nothing when it set none or no pair is usable, else the merge.
pub open spec fn cookie_to_store(existing: Option<Seq<char>>, set_cookies: Seq<Seq<char>>) -> Option<Seq<char>> {
    if set_cookies.len() == 0 {
        None
    } else {
        let m = cookie_map(cookie_segments(existing, set_cookies));
        if m.dom().is_empty() {
            None
        } else {
            Some(render_map(m))
        }
    }
}

/// The `Cookie` header to store after a response: nothing when the response
/// set no cookie, else the merge of the stored header with the new cookies.
pub fn cookie_header_to_store(
    existing_cookie_header: Option<&str>,
    set_cookie_headers: &[String],
) -> (r: Option<String>)
    ensures
        crate::config::error::os(r) == cookie_to_store(opt_view(existing_cookie_header), string_views(set_cookie_headers@)),
        set_cookie_headers@.len() == 0 ==> r is None,
        set_cookie_headers@.len() > 0 ==> ({
            let m = cookie_map(
                cookie_segments(opt_view(existing_cookie_header), string_views(set_cookie_headers@)),
            );
            &&& (r is None <==> m.dom().is_empty())
            &&& (r matches Some(s) ==> s@ == render_map(m))
        }),
{
    if set_cookie_headers.len() == 0 {
        return None;
    }
    merge_cookie_header_with_set_cookie(existing_cookie_header, set_cookie_headers)
}

} // verus!
