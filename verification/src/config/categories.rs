//! The categories of the configuration: their names, the domains each one
//! owns, and the index from a domain to its category.

use vstd::prelude::*;

use super::error::{copy_str, invalid, invalid_error, strs, ConfigError};
use super::raw::RawCategoryEntry;
use crate::entries::{eviews, find_key};
use crate::model::CategoryConfig;
use crate::sorted::{emap, lemma_emap_push, unique_keys};
use crate::text::{
    chars_of, lower_seq, push_all, push_str, seq_eq, string_of, to_ascii_lowercase, trim, trim_str,
};

verus! {

pub open spec fn raw_cats(raw: Seq<RawCategoryEntry>) -> Seq<(Seq<char>, Seq<Seq<char>>)> {
    raw.map_values(|c: RawCategoryEntry| (c.name@, strs(c.domains@)))
}

pub open spec fn cat_views(cs: Seq<CategoryConfig>) -> Seq<(Seq<char>, Seq<Seq<char>>)> {
    cs.map_values(|c: CategoryConfig| (c.name@, strs(c.domains@)))
}

pub open spec fn cat_names(cats: Seq<(Seq<char>, Seq<Seq<char>>)>) -> Seq<Seq<char>> {
    cats.map_values(|c: (Seq<char>, Seq<Seq<char>>)| c.0)
}

/// Some category of `cats` owns `d`.
pub open spec fn domain_taken(cats: Seq<(Seq<char>, Seq<Seq<char>>)>, d: Seq<char>) -> bool {
    exists|i: int| 0 <= i < cats.len() && #[trigger] cats[i].1.contains(d)
}

/// A domain as written: trimmed and ASCII lower-cased.
pub open spec fn norm_domain(d: Seq<char>) -> Seq<char> {
    lower_seq(trim(d))
}

/// The domains of category `name`, after those of `prior`: each must be
/// non-empty and owned by no category yet.
pub open spec fn add_domains(
    prior: Seq<(Seq<char>, Seq<Seq<char>>)>,
    name: Seq<char>,
    ds: Seq<Seq<char>>,
) -> Result<Seq<Seq<char>>, Seq<char>>
    decreases ds.len(),
{
    if ds.len() == 0 {
        Ok(Seq::empty())
    } else {
        match add_domains(prior, name, ds.drop_last()) {
            Err(m) => Err(m),
            Ok(acc) => {
                let d = norm_domain(ds.last());
                if d.len() == 0 {
                    Err("category '"@ + name + "' has empty domain"@)
                } else if domain_taken(prior, d) || acc.contains(d) {
                    Err("domain '"@ + d + "' appears in multiple categories"@)
                } else {
                    Ok(acc.push(d))
                }
            },
        }
    }
}

/// The categories in order: names trimmed, non-empty and distinct; the
/// first failing check is the error.
pub open spec fn build_cats(raw: Seq<(Seq<char>, Seq<Seq<char>>)>) -> Result<
    Seq<(Seq<char>, Seq<Seq<char>>)>,
    Seq<char>,
>
    decreases raw.len(),
{
    if raw.len() == 0 {
        Ok(Seq::empty())
    } else {
        match build_cats(raw.drop_last()) {
            Err(m) => Err(m),
            Ok(prior) => {
                let n = trim(raw.last().0);
                if n.len() == 0 {
                    Err("category name cannot be empty"@)
                } else if cat_names(prior).contains(n) {
                    Err("duplicate category name '"@ + n + "'"@)
                } else {
                    match add_domains(prior, n, raw.last().1) {
                        Err(m) => Err(m),
                        Ok(ds) => Ok(prior.push((n, ds))),
                    }
                }
            },
        }
    }
}

/// The categories, of which there must be at least one.
pub open spec fn categories_result(raw: Seq<(Seq<char>, Seq<Seq<char>>)>) -> Result<
    Seq<(Seq<char>, Seq<Seq<char>>)>,
    Seq<char>,
> {
    match build_cats(raw) {
        Err(m) => Err(m),
        Ok(c) => if c.len() == 0 {
            Err("categories.toml must define at least one category"@)
        } else {
            Ok(c)
        },
    }
}

/// Each domain of the categories, mapped to the name of its category.
pub open spec fn d2c_of(cats: Seq<(Seq<char>, Seq<Seq<char>>)>) -> Map<Seq<char>, Seq<char>>
    decreases cats.len(),
{
    if cats.len() == 0 {
        Map::empty()
    } else {
        d2c_of(cats.drop_last()).union_prefer_right(
            Map::new(|d: Seq<char>| cats.last().1.contains(d), |d: Seq<char>| cats.last().0),
        )
    }
}

/// Names are non-empty and distinct; domains are non-empty, and no domain
/// occurs twice, in one category or across two.
pub open spec fn cats_wf(cats: Seq<(Seq<char>, Seq<Seq<char>>)>) -> bool {
    &&& forall|i: int| 0 <= i < cats.len() ==> (#[trigger] cats[i]).0.len() > 0
    &&& forall|i: int, j: int| 0 <= i < j < cats.len() ==> (#[trigger] cats[i]).0 != (#[trigger] cats[j]).0
    &&& forall|i: int, k: int| 0 <= i < cats.len() && 0 <= k < cats[i].1.len() ==> (#[trigger] cats[i].1[k]).len() > 0
    &&& forall|i: int, k1: int, k2: int|
        0 <= i < cats.len() && 0 <= k1 < k2 < cats[i].1.len() ==> #[trigger] cats[i].1[k1] != #[trigger] cats[i].1[k2]
    &&& forall|i: int, j: int, k1: int, k2: int|
        0 <= i < j < cats.len() && 0 <= k1 < cats[i].1.len() && 0 <= k2 < cats[j].1.len()
            ==> #[trigger] cats[i].1[k1] != #[trigger] cats[j].1[k2]
}

/// The categories with their name list and domain index.
#[derive(Debug)]
pub struct CategoryIndex {
    pub categories: Vec<CategoryConfig>,
    pub names: Vec<String>,
    pub domain_to_category: Vec<(String, String)>,
}

impl CategoryIndex {
    pub open spec fn describes(&self, cats: Seq<(Seq<char>, Seq<Seq<char>>)>) -> bool {
        &&& cat_views(self.categories@) == cats
        &&& strs(self.names@) == cat_names(cats)
        &&& unique_keys(eviews(self.domain_to_category@))
        &&& emap(eviews(self.domain_to_category@)) == d2c_of(cats)
    }
}

pub proof fn lemma_d2c_contains(cats: Seq<(Seq<char>, Seq<Seq<char>>)>, d: Seq<char>)
    ensures
        d2c_of(cats).contains_key(d) <==> domain_taken(cats, d),
        d2c_of(cats).contains_key(d) ==> cat_names(cats).contains(d2c_of(cats)[d]),
    decreases cats.len(),
{
    if cats.len() > 0 {
        let p = cats.drop_last();
        lemma_d2c_contains(p, d);
        if domain_taken(p, d) {
            let i = choose|i: int| 0 <= i < p.len() && #[trigger] p[i].1.contains(d);
            assert(cats[i] == p[i]);
        }
        if domain_taken(cats, d) && !cats.last().1.contains(d) {
            let i = choose|i: int| 0 <= i < cats.len() && #[trigger] cats[i].1.contains(d);
            assert(p[i] == cats[i]);
        }
        if d2c_of(cats).contains_key(d) {
            if cats.last().1.contains(d) {
                assert(cat_names(cats)[cats.len() - 1] == cats.last().0);
            } else {
                let k = choose|k: int| 0 <= k < cat_names(p).len() && cat_names(p)[k] == d2c_of(p)[d];
                assert(cat_names(cats)[k] == cat_names(p)[k]);
            }
        }
    }
}

/// A source's category, when it resolves, is one of the categories.
pub proof fn lemma_category_known(
    id: Seq<char>,
    kind: Seq<char>,
    configured: Option<Seq<char>>,
    domain: Seq<char>,
    cats: Seq<(Seq<char>, Seq<Seq<char>>)>,
)
    ensures
        super::sources::category_result(id, kind, configured, domain, cat_names(cats), d2c_of(cats)) matches Ok(c)
            ==> cat_names(cats).contains(c),
{
    lemma_d2c_contains(cats, domain);
}

proof fn lemma_d2c_push_empty(prior: Seq<(Seq<char>, Seq<Seq<char>>)>, name: Seq<char>)
    ensures
        d2c_of(prior.push((name, Seq::empty()))) == d2c_of(prior),
{
    let c = prior.push((name, Seq::<Seq<char>>::empty()));
    assert(c.drop_last() =~= prior);
    assert(d2c_of(c) =~= d2c_of(prior));
}

proof fn lemma_d2c_push_domain(
    prior: Seq<(Seq<char>, Seq<Seq<char>>)>,
    name: Seq<char>,
    acc: Seq<Seq<char>>,
    d: Seq<char>,
)
    ensures
        d2c_of(prior.push((name, acc.push(d)))) == d2c_of(prior.push((name, acc))).insert(d, name),
{
    let c1 = prior.push((name, acc));
    let c2 = prior.push((name, acc.push(d)));
    assert(c1.drop_last() =~= prior);
    assert(c2.drop_last() =~= prior);
    assert forall|x: Seq<char>| acc.push(d).contains(x) <==> acc.contains(x) || x == d by {
        if acc.push(d).contains(x) && x != d {
            let k = choose|k: int| 0 <= k < acc.push(d).len() && acc.push(d)[k] == x;
            assert(acc[k] == x);
        }
        if acc.contains(x) {
            let k = choose|k: int| 0 <= k < acc.len() && acc[k] == x;
            assert(acc.push(d)[k] == x);
        }
        if x == d {
            assert(acc.push(d)[acc.len() as int] == d);
        }
    }
    let m1 = Map::new(|x: Seq<char>| acc.contains(x), |x: Seq<char>| name);
    let m2 = Map::new(|x: Seq<char>| acc.push(d).contains(x), |x: Seq<char>| name);
    assert(d2c_of(c1) == d2c_of(prior).union_prefer_right(m1));
    assert(d2c_of(c2) == d2c_of(prior).union_prefer_right(m2));
    assert forall|x: Seq<char>| #[trigger] m2.contains_key(x) <==> m1.insert(d, name).contains_key(x) by {
        assert(acc.push(d).contains(x) <==> acc.contains(x) || x == d);
    }
    assert(m2 =~= m1.insert(d, name));
    assert(d2c_of(prior).union_prefer_right(m1).insert(d, name) =~= d2c_of(prior).union_prefer_right(m2));
}

proof fn lemma_add_domains_err_prefix(
    prior: Seq<(Seq<char>, Seq<Seq<char>>)>,
    name: Seq<char>,
    ds: Seq<Seq<char>>,
    n: int,
)
    requires
        0 <= n <= ds.len(),
        add_domains(prior, name, ds.take(n)) is Err,
    ensures
        add_domains(prior, name, ds) == add_domains(prior, name, ds.take(n)),
    decreases ds.len() - n,
{
    if n < ds.len() {
        assert(ds.take(n + 1).drop_last() =~= ds.take(n));
        lemma_add_domains_err_prefix(prior, name, ds, n + 1);
    } else {
        assert(ds.take(n) =~= ds);
    }
}

proof fn lemma_build_err_prefix(raw: Seq<(Seq<char>, Seq<Seq<char>>)>, n: int)
    requires
        0 <= n <= raw.len(),
        build_cats(raw.take(n)) is Err,
    ensures
        build_cats(raw) == build_cats(raw.take(n)),
    decreases raw.len() - n,
{
    if n < raw.len() {
        assert(raw.take(n + 1).drop_last() =~= raw.take(n));
        lemma_build_err_prefix(raw, n + 1);
    } else {
        assert(raw.take(n) =~= raw);
    }
}

/// The domains added are non-empty, distinct, and owned by no earlier
/// category.
proof fn lemma_add_domains_props(
    prior: Seq<(Seq<char>, Seq<Seq<char>>)>,
    name: Seq<char>,
    ds: Seq<Seq<char>>,
)
    ensures
        add_domains(prior, name, ds) matches Ok(acc) ==> {
            &&& forall|k: int| 0 <= k < acc.len() ==> (#[trigger] acc[k]).len() > 0 && !domain_taken(prior, acc[k])
            &&& forall|k1: int, k2: int| 0 <= k1 < k2 < acc.len() ==> #[trigger] acc[k1] != #[trigger] acc[k2]
        },
    decreases ds.len(),
{
    if ds.len() > 0 {
        lemma_add_domains_props(prior, name, ds.drop_last());
        match add_domains(prior, name, ds.drop_last()) {
            Ok(acc0) => {
                let d = norm_domain(ds.last());
                if d.len() > 0 && !(domain_taken(prior, d) || acc0.contains(d)) {
                    let acc = acc0.push(d);
                    assert forall|k1: int, k2: int| 0 <= k1 < k2 < acc.len() implies #[trigger] acc[k1] != #[trigger] acc[k2] by {
                        if k2 == acc0.len() {
                            assert(acc0[k1] == acc[k1]);
                        } else {
                            assert(acc0[k1] == acc[k1] && acc0[k2] == acc[k2]);
                        }
                    }
                    assert forall|k: int| 0 <= k < acc.len() implies (#[trigger] acc[k]).len() > 0 && !domain_taken(prior, acc[k]) by {
                        if k < acc0.len() {
                            assert(acc0[k] == acc[k]);
                        }
                    }
                }
            },
            Err(_) => {},
        }
    }
}

/// Categories that were built are well formed.
pub proof fn lemma_build_cats_wf(raw: Seq<(Seq<char>, Seq<Seq<char>>)>)
    ensures
        build_cats(raw) matches Ok(c) ==> cats_wf(c),
    decreases raw.len(),
{
    if raw.len() > 0 {
        lemma_build_cats_wf(raw.drop_last());
        match build_cats(raw.drop_last()) {
            Ok(prior) => {
                let n = trim(raw.last().0);
                lemma_add_domains_props(prior, n, raw.last().1);
                if n.len() > 0 && !cat_names(prior).contains(n) {
                    match add_domains(prior, n, raw.last().1) {
                        Ok(ds) => {
                            let c = prior.push((n, ds));
                            assert forall|i: int, j: int| 0 <= i < j < c.len() implies (#[trigger] c[i]).0 != (#[trigger] c[j]).0 by {
                                if j == prior.len() {
                                    assert(cat_names(prior)[i] == prior[i].0);
                                } else {
                                    assert(c[i] == prior[i] && c[j] == prior[j]);
                                }
                            }
                            assert forall|i: int, k: int| 0 <= i < c.len() && 0 <= k < c[i].1.len() implies (#[trigger] c[i].1[k]).len() > 0 by {
                                if i < prior.len() {
                                    assert(c[i] == prior[i]);
                                }
                            }
                            assert forall|i: int, k1: int, k2: int|
                                0 <= i < c.len() && 0 <= k1 < k2 < c[i].1.len() implies #[trigger] c[i].1[k1] != #[trigger] c[i].1[k2] by {
                                if i < prior.len() {
                                    assert(c[i] == prior[i]);
                                }
                            }
                            assert forall|i: int, j: int, k1: int, k2: int|
                                0 <= i < j < c.len() && 0 <= k1 < c[i].1.len() && 0 <= k2 < c[j].1.len()
                                implies #[trigger] c[i].1[k1] != #[trigger] c[j].1[k2] by {
                                if j == prior.len() {
                                    assert(c[i] == prior[i]);
                                    assert(!domain_taken(prior, ds[k2]));
                                    assert(prior[i].1[k1] == c[i].1[k1]);
                                    if c[i].1[k1] == ds[k2] {
                                        assert(prior[i].1.contains(ds[k2]));
                                    }
                                } else {
                                    assert(c[i] == prior[i] && c[j] == prior[j]);
                                }
                            }
                        },
                        Err(_) => {},
                    }
                }
            },
            Err(_) => {},
        }
    }
}

/// `s` is one of `names`.
pub fn contains_name(names: &Vec<String>, s: &str) -> (r: bool)
    ensures
        r == strs(names@).contains(s@),
{
    let mut i: usize = 0;
    while i < names.len()
        invariant
            i <= names.len(),
            forall|j: int| 0 <= j < i ==> names@[j]@ != s@,
        decreases names.len() - i,
    {
        let a = chars_of(names[i].as_str());
        let b = chars_of(s);
        if seq_eq(&a, &b) {
            assert(strs(names@)[i as int] == s@);
            return true;
        }
        i = i + 1;
    }
    assert forall|j: int| 0 <= j < strs(names@).len() implies strs(names@)[j] != s@ by {
        assert(strs(names@)[j] == names@[j]@);
    }
    false
}

/// Adds the domains of category `name` to the index.
fn add_category_domains(
    ds: &Vec<String>,
    name: &String,
    d2c: &mut Vec<(String, String)>,
    Ghost(prior): Ghost<Seq<(Seq<char>, Seq<Seq<char>>)>>,
) -> (r: Result<Vec<String>, ConfigError>)
    requires
        unique_keys(eviews(old(d2c)@)),
        emap(eviews(old(d2c)@)) == d2c_of(prior),
    ensures
        match add_domains(prior, name@, strs(ds@)) {
            Err(m) => r matches Err(e) && invalid(e, m),
            Ok(acc) => r matches Ok(v) && strs(v@) == acc && unique_keys(eviews(final(d2c)@))
                && emap(eviews(final(d2c)@)) == d2c_of(prior.push((name@, acc))),
        },
{
    let ghost dsv = strs(ds@);
    let mut out: Vec<String> = Vec::new();
    let mut k: usize = 0;
    proof {
        lemma_d2c_push_empty(prior, name@);
        assert(dsv.take(0) =~= Seq::<Seq<char>>::empty());
        assert(strs(out@) =~= Seq::<Seq<char>>::empty());
    }
    while k < ds.len()
        invariant
            k <= ds.len(),
            dsv == strs(ds@),
            add_domains(prior, name@, dsv.take(k as int)) == Ok::<Seq<Seq<char>>, Seq<char>>(strs(out@)),
            unique_keys(eviews(d2c@)),
            emap(eviews(d2c@)) == d2c_of(prior.push((name@, strs(out@)))),
        decreases ds.len() - k,
    {
        proof {
            assert(dsv.take(k + 1).drop_last() =~= dsv.take(k as int));
            assert(dsv.take(k + 1).last() == ds@[k as int]@);
        }
        let t = trim_str(ds[k].as_str());
        let d = to_ascii_lowercase(&t);
        if d.len() == 0 {
            let mut msg: Vec<char> = Vec::new();
            push_str(&mut msg, "category '");
            push_str(&mut msg, name.as_str());
            push_str(&mut msg, "' has empty domain");
            proof {
                assert(add_domains(prior, name@, dsv.take(k + 1)) == Err::<Seq<Seq<char>>, Seq<char>>(msg@));
                lemma_add_domains_err_prefix(prior, name@, dsv, k + 1);
            }
            return Err(invalid_error(&msg));
        }
        let ds_s = string_of(&d);
        let ghost acc = strs(out@);
        proof {
            let c = prior.push((name@, acc));
            lemma_d2c_contains(c, d@);
            assert(c.drop_last() =~= prior);
            if domain_taken(c, d@) && !acc.contains(d@) {
                let i = choose|i: int| 0 <= i < c.len() && #[trigger] c[i].1.contains(d@);
                assert(prior[i] == c[i]);
            }
            if domain_taken(prior, d@) {
                let i = choose|i: int| 0 <= i < prior.len() && #[trigger] prior[i].1.contains(d@);
                assert(prior[i] == c[i]);
            }
        }
        match find_key(d2c, ds_s.as_str()) {
            Some(j) => {
                proof {
                    crate::sorted::lemma_emap_unique(eviews(d2c@));
                    assert(eviews(d2c@)[j as int].0 == d@);
                    assert(emap(eviews(d2c@)).contains_key(d@));
                }
                let mut msg: Vec<char> = Vec::new();
                push_str(&mut msg, "domain '");
                push_all(&mut msg, &d);
                push_str(&mut msg, "' appears in multiple categories");
                proof {
                    crate::sorted::lemma_emap_unique(eviews(d2c@));
                    assert(add_domains(prior, name@, dsv.take(k + 1)) == Err::<Seq<Seq<char>>, Seq<char>>(msg@));
                    lemma_add_domains_err_prefix(prior, name@, dsv, k + 1);
                }
                return Err(invalid_error(&msg));
            },
            None => {},
        }
        proof {
            lemma_emap_push(eviews(d2c@), d@, name@);
            lemma_d2c_push_domain(prior, name@, acc, d@);
        }
        let ghost before = eviews(d2c@);
        d2c.push((copy_str(&ds_s), copy_str(name)));
        out.push(ds_s);
        proof {
            assert(eviews(d2c@) =~= before.push((d@, name@)));
            assert(strs(out@) =~= acc.push(d@));
        }
        k = k + 1;
    }
    proof {
        assert(dsv.take(ds.len() as int) =~= dsv);
    }
    Ok(out)
}

/// The categories of the configuration with their name list and domain
/// index: names are trimmed, domains trimmed and lower-cased; an empty
/// name, a repeated name, an empty domain, a domain in two categories or
/// no category at all is an error.
pub fn build_categories(raw: &Vec<RawCategoryEntry>) -> (r: Result<CategoryIndex, ConfigError>)
    ensures
        match categories_result(raw_cats(raw@)) {
            Err(m) => r matches Err(e) && invalid(e, m),
            Ok(c) => r matches Ok(ix) && ix.describes(c) && cats_wf(c),
        },
{
    let ghost rv = raw_cats(raw@);
    let mut categories: Vec<CategoryConfig> = Vec::new();
    let mut names: Vec<String> = Vec::new();
    let mut d2c: Vec<(String, String)> = Vec::new();
    let mut i: usize = 0;
    proof {
        assert(rv.take(0) =~= Seq::<(Seq<char>, Seq<Seq<char>>)>::empty());
        assert(cat_views(categories@) =~= Seq::<(Seq<char>, Seq<Seq<char>>)>::empty());
        assert(strs(names@) =~= Seq::<Seq<char>>::empty());
        assert(eviews(d2c@) =~= Seq::<(Seq<char>, Seq<char>)>::empty());
        assert(d2c_of(Seq::<(Seq<char>, Seq<Seq<char>>)>::empty()) =~= Map::empty());
    }
    while i < raw.len()
        invariant
            i <= raw.len(),
            rv == raw_cats(raw@),
            build_cats(rv.take(i as int)) == Ok::<Seq<(Seq<char>, Seq<Seq<char>>)>, Seq<char>>(cat_views(categories@)),
            strs(names@) == cat_names(cat_views(categories@)),
            unique_keys(eviews(d2c@)),
            emap(eviews(d2c@)) == d2c_of(cat_views(categories@)),
        decreases raw.len() - i,
    {
        let ghost prior = cat_views(categories@);
        proof {
            assert(rv.take(i + 1).drop_last() =~= rv.take(i as int));
            assert(rv.take(i + 1).last() == rv[i as int]);
        }
        let name_v = trim_str(raw[i].name.as_str());
        if name_v.len() == 0 {
            let msg = chars_of("category name cannot be empty");
            proof {
                lemma_build_err_prefix(rv, i + 1);
            }
            return Err(invalid_error(&msg));
        }
        let name = string_of(&name_v);
        if contains_name(&names, name.as_str()) {
            let mut msg: Vec<char> = Vec::new();
            push_str(&mut msg, "duplicate category name '");
            push_all(&mut msg, &name_v);
            push_str(&mut msg, "'");
            proof {
                assert(build_cats(rv.take(i + 1)) == Err::<Seq<(Seq<char>, Seq<Seq<char>>)>, Seq<char>>(msg@));
                lemma_build_err_prefix(rv, i + 1);
            }
            return Err(invalid_error(&msg));
        }
        let doms = match add_category_domains(&raw[i].domains, &name, &mut d2c, Ghost(prior)) {
            Ok(v) => v,
            Err(e) => {
                proof {
                    lemma_build_err_prefix(rv, i + 1);
                }
                return Err(e);
            },
        };
        let ghost dv = strs(doms@);
        categories.push(CategoryConfig { name: copy_str(&name), domains: doms });
        names.push(name);
        proof {
            assert(cat_views(categories@) =~= prior.push((name_v@, dv)));
            assert(strs(names@) =~= cat_names(prior).push(name_v@));
            assert(cat_names(cat_views(categories@)) =~= cat_names(prior).push(name_v@));
        }
        i = i + 1;
    }
    proof {
        assert(rv.take(raw.len() as int) =~= rv);
        lemma_build_cats_wf(rv);
    }
    if categories.len() == 0 {
        let msg = chars_of("categories.toml must define at least one category");
        return Err(invalid_error(&msg));
    }
    Ok(CategoryIndex { categories, names, domain_to_category: d2c })
}


/// The categories' domains cover `domain`.
pub open spec fn covered(cats: Seq<(Seq<char>, Seq<Seq<char>>)>, domain: Seq<char>) -> bool {
    exists|i: int| 0 <= i < cats.len() && (#[trigger] cats[i]).1.contains(domain)
}

fn covers(categories: &Vec<CategoryConfig>, domain: &str) -> (r: bool)
    ensures
        r == covered(cat_views(categories@), domain@),
{
    let ghost cv = cat_views(categories@);
    let mut i: usize = 0;
    while i < categories.len()
        invariant
            i <= categories.len(),
            cv == cat_views(categories@),
            forall|j: int| 0 <= j < i ==> !(#[trigger] cv[j]).1.contains(domain@),
        decreases categories.len() - i,
    {
        if contains_name(&categories[i].domains, domain) {
            assert(cv[i as int].1 == strs(categories@[i as int].domains@));
            return true;
        }
        assert(cv[i as int].1 == strs(categories@[i as int].domains@));
        i = i + 1;
    }
    false
}

/// Every domain with a request limit belongs to some category; otherwise
/// the error names an uncovered domain.
pub fn validate_semantic(domains: &Vec<String>, categories: &Vec<CategoryConfig>) -> (r: Result<(), ConfigError>)
    ensures
        r is Ok <==> forall|i: int| 0 <= i < domains.len() ==> covered(cat_views(categories@), #[trigger] domains@[i]@),
        r matches Err(e) ==> exists|i: int| 0 <= i < domains.len() && !covered(cat_views(categories@), #[trigger] domains@[i]@)
            && invalid(e, "domain '"@ + domains@[i]@ + "' missing from categories.toml"@),
{
    let mut i: usize = 0;
    while i < domains.len()
        invariant
            i <= domains.len(),
            forall|j: int| 0 <= j < i ==> covered(cat_views(categories@), #[trigger] domains@[j]@),
        decreases domains.len() - i,
    {
        if !covers(categories, domains[i].as_str()) {
            let mut msg: Vec<char> = Vec::new();
            push_str(&mut msg, "domain '");
            push_str(&mut msg, domains[i].as_str());
            push_str(&mut msg, "' missing from categories.toml");
            return Err(invalid_error(&msg));
        }
        i = i + 1;
    }
    Ok(())
}

} // verus!
