//! File-system path decisions: where the log directory is, and which
//! files of a feeds directory are feeds files.

use vstd::prelude::*;

use super::error::{invalid, invalid_error, os, strs, ConfigError};
use crate::text::{
    ascii_lower_char, chars_of, lemma_seq_lt_asymmetric, lemma_seq_lt_transitive, lower_seq, lt_chars, push_str, seq_eq,
    seq_lt, split, split_vec, string_of, views,
};

verus! {

/// What `Path::new(p).is_absolute()` returns for the path `p`.
pub uninterp spec fn path_is_absolute(p: Seq<char>) -> bool;

/// The parent of the path `p` (`Path::parent`), as text.
pub uninterp spec fn path_parent(p: Seq<char>) -> Option<Seq<char>>;

/// `base` joined with `p` (`Path::join`), as text.
pub uninterp spec fn path_join(base: Seq<char>, p: Seq<char>) -> Seq<char>;

/// The extension of the last component of `p` (`Path::extension`).
pub uninterp spec fn path_extension(p: Seq<char>) -> Option<Seq<char>>;

/// The last component of `p` (`Path::file_name`).
pub uninterp spec fn path_file_name(p: Seq<char>) -> Option<Seq<char>>;

/// Calls `Path::is_absolute`; the result is named `path_is_absolute`.
#[verifier::external_body]
fn is_absolute(p: &str) -> (r: bool)
    ensures
        r == path_is_absolute(p@),
{
    std::path::Path::new(p).is_absolute()
}

/// Calls `Path::parent`; the result is named `path_parent`. The parent of
/// a path given as text is text, so the conversion loses nothing.
#[verifier::external_body]
fn parent_of(p: &str) -> (r: Option<String>)
    ensures
        os(r) == path_parent(p@),
{
    std::path::Path::new(p).parent().map(|q| q.to_string_lossy().into_owned())
}

/// Calls `Path::join`; the result is named `path_join`.
#[verifier::external_body]
pub(crate) fn join(base: &str, p: &str) -> (r: String)
    ensures
        r@ == path_join(base@, p@),
{
    std::path::Path::new(base).join(p).to_string_lossy().into_owned()
}

/// Calls `Path::extension`; the result is named `path_extension`.
#[verifier::external_body]
fn extension_of(p: &str) -> (r: Option<String>)
    ensures
        os(r) == path_extension(p@),
{
    std::path::Path::new(p).extension().map(|e| e.to_string_lossy().into_owned())
}

/// Calls `Path::file_name`; the result is named `path_file_name`.
#[verifier::external_body]
fn file_name_of(p: &str) -> (r: Option<String>)
    ensures
        os(r) == path_file_name(p@),
{
    std::path::Path::new(p).file_name().map(|e| e.to_string_lossy().into_owned())
}


/// Lists of path components in order: the first differing component
/// decides (by char order), and a list before its own extensions.
pub open spec fn comps_lt(a: Seq<Seq<char>>, b: Seq<Seq<char>>) -> bool
    decreases a.len(),
{
    if a.len() == 0 {
        b.len() > 0
    } else if b.len() == 0 {
        false
    } else if a[0] == b[0] {
        comps_lt(a.drop_first(), b.drop_first())
    } else {
        seq_lt(a[0], b[0])
    }
}

/// Paths ordered by their `/`-separated components, as `Path` orders them.
pub open spec fn path_lt(a: Seq<char>, b: Seq<char>) -> bool {
    comps_lt(split(a, '/'), split(b, '/'))
}

pub proof fn lemma_comps_lt_irreflexive(a: Seq<Seq<char>>)
    ensures
        !comps_lt(a, a),
    decreases a.len(),
{
    if a.len() > 0 {
        lemma_comps_lt_irreflexive(a.drop_first());
    }
}

pub proof fn lemma_comps_lt_transitive(a: Seq<Seq<char>>, b: Seq<Seq<char>>, c: Seq<Seq<char>>)
    requires
        comps_lt(a, b),
        comps_lt(b, c),
    ensures
        comps_lt(a, c),
    decreases a.len(),
{
    if a.len() > 0 && b.len() > 0 && c.len() > 0 {
        if a[0] == b[0] && b[0] == c[0] {
            lemma_comps_lt_transitive(a.drop_first(), b.drop_first(), c.drop_first());
        } else if a[0] == b[0] {
            lemma_seq_lt_asymmetric(b[0], c[0]);
        } else if b[0] == c[0] {
            lemma_seq_lt_asymmetric(a[0], b[0]);
        } else {
            lemma_seq_lt_transitive(a[0], b[0], c[0]);
            if a[0] == c[0] {
                lemma_seq_lt_asymmetric(a[0], b[0]);
            }
        }
    }
}

/// Each path is at or before every later one.
pub open spec fn paths_sorted(s: Seq<Seq<char>>) -> bool {
    forall|i: int, j: int| 0 <= i < j < s.len() ==> !path_lt(#[trigger] s[j], #[trigger] s[i])
}

/// A feeds file: a `.toml` file (any case) other than `global.toml`.
pub open spec fn is_feed_file(p: Seq<char>) -> bool {
    &&& match path_extension(p) {
        Some(e) => lower_seq(e) == lower_seq("toml"@),
        None => false,
    }
    &&& !match path_file_name(p) {
        Some(n) => lower_seq(n) == lower_seq("global.toml"@),
        None => false,
    }
}

fn comps_lt_vec(a: &Vec<Vec<char>>, b: &Vec<Vec<char>>) -> (r: bool)
    ensures
        r == comps_lt(views(a@), views(b@)),
{
    let ghost va = views(a@);
    let ghost vb = views(b@);
    let mut k: usize = 0;
    proof {
        assert(va.skip(0) =~= va);
        assert(vb.skip(0) =~= vb);
    }
    while k < a.len() && k < b.len()
        invariant
            k <= a.len(),
            k <= b.len(),
            va == views(a@),
            vb == views(b@),
            comps_lt(va, vb) == comps_lt(va.skip(k as int), vb.skip(k as int)),
        decreases a.len() - k,
    {
        assert(va.skip(k as int)[0] == a@[k as int]@);
        assert(vb.skip(k as int)[0] == b@[k as int]@);
        if !seq_eq(&a[k], &b[k]) {
            return lt_chars(&a[k], &b[k]);
        }
        assert(va.skip(k as int).drop_first() =~= va.skip(k + 1));
        assert(vb.skip(k as int).drop_first() =~= vb.skip(k + 1));
        k = k + 1;
    }
    k < b.len()
}

fn path_before(a: &str, b: &str) -> (r: bool)
    ensures
        r == path_lt(a@, b@),
{
    let ca = split_vec(&chars_of(a), '/');
    let cb = split_vec(&chars_of(b), '/');
    comps_lt_vec(&ca, &cb)
}

/// Inserts `x` after every path not after it.
fn insert_path(out: &mut Vec<String>, x: String)
    requires
        paths_sorted(strs(old(out)@)),
    ensures
        paths_sorted(strs(final(out)@)),
        strs(final(out)@).to_multiset() == strs(old(out)@).to_multiset().insert(x@),
{
    let ghost s0 = strs(out@);
    let mut j: usize = 0;
    while j < out.len() && !path_before(x.as_str(), out[j].as_str())
        invariant
            j <= out.len(),
            s0 == strs(out@),
            forall|m: int| 0 <= m < j ==> !path_lt(x@, #[trigger] s0[m]),
        decreases out.len() - j,
    {
        j = j + 1;
    }
    proof {
        broadcast use vstd::seq_lib::to_multiset_insert;
        let n = s0.insert(j as int, x@);
        assert forall|a: int, b: int| 0 <= a < b < n.len() implies !path_lt(#[trigger] n[b], #[trigger] n[a]) by {
            if b < j {
                assert(n[a] == s0[a] && n[b] == s0[b]);
            } else if b == j {
                assert(n[a] == s0[a]);
            } else if a == j {
                assert(n[b] == s0[b - 1]);
                assert(path_lt(x@, s0[j as int]));
                if path_lt(s0[b - 1], x@) {
                    lemma_comps_lt_transitive(split(s0[b - 1], '/'), split(x@, '/'), split(s0[j as int], '/'));
                    if b - 1 > j {
                        assert(!path_lt(s0[b - 1], s0[j as int]));
                    } else {
                        lemma_comps_lt_irreflexive(split(s0[j as int], '/'));
                    }
                }
            } else if a < j {
                assert(n[a] == s0[a] && n[b] == s0[b - 1]);
            } else {
                assert(n[a] == s0[a - 1] && n[b] == s0[b - 1]);
            }
        }
        assert(s0.insert(j as int, x@).to_multiset() == s0.to_multiset().insert(x@));
    }
    out.insert(j, x);
    proof {
        assert(strs(out@) =~= s0.insert(j as int, x@));
    }
}

/// The feeds files among the files found under a feeds directory `dir`,
/// sorted by path; none at all is an error.
pub fn select_feed_files(dir: &str, files: Vec<String>) -> (r: Result<Vec<String>, ConfigError>)
    ensures
        ({
            let sel = strs(files@).filter(|p: Seq<char>| is_feed_file(p));
            &&& sel.len() == 0 ==> (r matches Err(e) && invalid(e, "no feed files found in "@ + dir@))
            &&& sel.len() > 0 ==> (r matches Ok(v) && strs(v@).to_multiset() == sel.to_multiset()
                && paths_sorted(strs(v@)))
        }),
{
    let ghost all = strs(files@);
    let mut out: Vec<String> = Vec::new();
    let mut i: usize = 0;
    proof {
        assert(all.take(0).filter(|p: Seq<char>| is_feed_file(p)) =~= Seq::<Seq<char>>::empty());
        assert(strs(out@) =~= Seq::<Seq<char>>::empty());
    }
    while i < files.len()
        invariant
            i <= files.len(),
            all == strs(files@),
            paths_sorted(strs(out@)),
            strs(out@).to_multiset() == all.take(i as int).filter(|p: Seq<char>| is_feed_file(p)).to_multiset(),
        decreases files.len() - i,
    {
        let ghost before = all.take(i as int).filter(|p: Seq<char>| is_feed_file(p));
        proof {
            assert(all.take(i + 1) =~= all.take(i as int).push(all[i as int]));
            all.take(i as int).lemma_filter_push(all[i as int], |p: Seq<char>| is_feed_file(p));
        }
        let f = files[i].as_str();
        if is_toml_file(f) && !is_global_file(f) {
            proof {
                broadcast use vstd::seq_lib::to_multiset_build;
                assert(before.push(f@).to_multiset() == before.to_multiset().insert(f@));
            }
            insert_path(&mut out, files[i].clone());
        }
        i = i + 1;
    }
    proof {
        assert(all.take(files.len() as int) =~= all);
    }
    let ghost sel = all.filter(|p: Seq<char>| is_feed_file(p));
    if out.len() == 0 {
        proof {
            vstd::seq_lib::to_multiset_len(strs(out@));
            vstd::seq_lib::to_multiset_len(sel);
        }
        let mut msg: Vec<char> = Vec::new();
        push_str(&mut msg, "no feed files found in ");
        push_str(&mut msg, dir);
        return Err(invalid_error(&msg));
    }
    proof {
        vstd::seq_lib::to_multiset_len(sel);
        vstd::seq_lib::to_multiset_len(strs(out@));
    }
    Ok(out)
}

/// Equal up to ASCII case (what `str::eq_ignore_ascii_case` decides).
pub fn eq_ignore_ascii_case(a: &str, b: &str) -> (r: bool)
    ensures
        r == (lower_seq(a@) == lower_seq(b@)),
{
    let av = chars_of(a);
    let bv = chars_of(b);
    if av.len() != bv.len() {
        assert(lower_seq(a@).len() != lower_seq(b@).len());
        return false;
    }
    let mut i: usize = 0;
    while i < av.len()
        invariant
            i <= av.len(),
            av.len() == bv.len(),
            av@ == a@,
            bv@ == b@,
            forall|j: int| 0 <= j < i ==> lower_seq(a@)[j] == lower_seq(b@)[j],
        decreases av.len() - i,
    {
        if ascii_lower_char(av[i]) != ascii_lower_char(bv[i]) {
            assert(lower_seq(a@)[i as int] != lower_seq(b@)[i as int]);
            return false;
        }
        i = i + 1;
    }
    assert(lower_seq(a@) =~= lower_seq(b@));
    true
}

/// The log directory: `log_dir` itself when it is absolute, else
/// `log_dir` under the directory of the configuration file (or under `.`
/// when the configuration path has no parent).
pub fn resolve_log_dir(config_path: &str, log_dir: &str) -> (r: String)
    ensures
        r@ == (if path_is_absolute(log_dir@) {
            log_dir@
        } else {
            path_join(
                match path_parent(config_path@) {
                    Some(p) => p,
                    None => "."@,
                },
                log_dir@,
            )
        }),
{
    if is_absolute(log_dir) {
        return string_of(&chars_of(log_dir));
    }
    match parent_of(config_path) {
        Some(p) => join(p.as_str(), log_dir),
        None => join(".", log_dir),
    }
}

/// `needle` occurs in `hay` at some position.
pub open spec fn occurs_in(hay: Seq<char>, needle: Seq<char>) -> bool {
    exists|i: int| 0 <= i && i + needle.len() <= hay.len() && #[trigger] hay.subrange(i, i + needle.len()) == needle
}

fn occurs_at(hay: &Vec<char>, needle: &Vec<char>, i: usize) -> (r: bool)
    requires
        i + needle.len() <= hay.len(),
    ensures
        r == (hay@.subrange(i as int, i + needle.len()) == needle@),
{
    let mut j: usize = 0;
    while j < needle.len()
        invariant
            j <= needle.len(),
            i + needle.len() <= hay.len(),
            forall|k: int| 0 <= k < j ==> hay@[i + k] == needle@[k],
        decreases needle.len() - j,
    {
        if hay[i + j] != needle[j] {
            assert(hay@.subrange(i as int, i + needle.len())[j as int] != needle@[j as int]);
            return false;
        }
        j = j + 1;
    }
    assert(hay@.subrange(i as int, i + needle.len()) =~= needle@);
    true
}

fn occurs(hay: &Vec<char>, needle: &Vec<char>) -> (r: bool)
    ensures
        r == occurs_in(hay@, needle@),
{
    if needle.len() > hay.len() {
        return false;
    }
    if needle.len() == 0 {
        assert(hay@.subrange(0, 0 + needle.len()) =~= needle@);
        return true;
    }
    let end = hay.len() - needle.len() + 1;
    let mut i: usize = 0;
    while i < end
        invariant
            end + needle.len() == hay.len() + 1,
            forall|k: int| 0 <= k < i ==> #[trigger] hay@.subrange(k, k + needle.len()) != needle@,
        decreases end - i,
    {
        if occurs_at(hay, needle, i) {
            return true;
        }
        i = i + 1;
    }
    false
}

/// The directory a relative SQLite path is read against: the working
/// directory `cwd` when the configuration path mentions `resources`, else
/// the configuration file's directory (or `cwd` when it has none).
pub fn resolve_db_base_dir(config_path: &str, cwd: &str) -> (r: String)
    ensures
        r@ == (if occurs_in(config_path@, "resources"@) {
            cwd@
        } else {
            match path_parent(config_path@) {
                Some(p) => p,
                None => cwd@,
            }
        }),
{
    let hay = chars_of(config_path);
    let needle = chars_of("resources");
    if occurs(&hay, &needle) {
        return string_of(&chars_of(cwd));
    }
    match parent_of(config_path) {
        Some(p) => p,
        None => string_of(&chars_of(cwd)),
    }
}

/// The path's extension is `toml`, in any ASCII case.
pub fn is_toml_file(path: &str) -> (r: bool)
    ensures
        r == match path_extension(path@) {
            Some(e) => lower_seq(e) == lower_seq("toml"@),
            None => false,
        },
{
    match extension_of(path) {
        Some(e) => eq_ignore_ascii_case(e.as_str(), "toml"),
        None => false,
    }
}

/// The path's file name is `global.toml`, in any ASCII case.
pub fn is_global_file(path: &str) -> (r: bool)
    ensures
        r == match path_file_name(path@) {
            Some(n) => lower_seq(n) == lower_seq("global.toml"@),
            None => false,
        },
{
    match file_name_of(path) {
        Some(n) => eq_ignore_ascii_case(n.as_str(), "global.toml"),
        None => false,
    }
}

} // verus!
