//! One feeds file and its directory defaults: the layered feed and watch
//! defaults, the watch profiles, and the filled feeds and watches.

use vstd::prelude::*;

use super::defaults::{
    apply_feed_defaults, apply_watch_defaults, feed_applied, feed_checked, feed_empty, feed_merge,
    watch_applied, watch_checked, watch_empty, watch_merge, FeedDefaults, WatchDefaults,
};
use super::error::{invalid, invalid_error, ConfigError};
use super::raw::{
    FeedDefaultsView, RawFeed, RawFeedDefaults, RawFeedView, RawFeedsFile, RawWatch,
    RawWatchProfile, RawWatchView, WatchDefaultsView,
};
use crate::entries::{eviews, find_key};
use crate::sorted::{emap, lemma_emap_push, unique_keys};
use crate::text::{push_all, push_str, string_of, trim, trim_str};

verus! {

pub open spec fn feed_views(v: Seq<RawFeed>) -> Seq<RawFeedView> {
    v.map_values(|f: RawFeed| f@)
}

pub open spec fn watch_views(v: Seq<RawWatch>) -> Seq<RawWatchView> {
    v.map_values(|w: RawWatch| w@)
}

pub open spec fn profile_views(v: Seq<RawWatchProfile>) -> Seq<(Seq<char>, WatchDefaultsView)> {
    v.map_values(|p: RawWatchProfile| (p.name@, p.defaults@))
}

/// Each feed filled from `d`, in order; the first failure is the error.
pub open spec fn feeds_applied(fs: Seq<RawFeedView>, d: FeedDefaultsView, path: Seq<char>) -> Result<
    Seq<RawFeedView>,
    Seq<char>,
>
    decreases fs.len(),
{
    if fs.len() == 0 {
        Ok(Seq::empty())
    } else {
        match feeds_applied(fs.drop_last(), d, path) {
            Err(m) => Err(m),
            Ok(acc) => match feed_applied(fs.last(), d, path) {
                Err(m) => Err(m),
                Ok(f) => Ok(acc.push(f)),
            },
        }
    }
}

/// Each watch filled from its profile or `d`, in order.
pub open spec fn watches_applied(
    ws: Seq<RawWatchView>,
    d: WatchDefaultsView,
    profiles: Map<Seq<char>, WatchDefaultsView>,
    path: Seq<char>,
) -> Result<Seq<RawWatchView>, Seq<char>>
    decreases ws.len(),
{
    if ws.len() == 0 {
        Ok(Seq::empty())
    } else {
        match watches_applied(ws.drop_last(), d, profiles, path) {
            Err(m) => Err(m),
            Ok(acc) => match watch_applied(ws.last(), d, profiles, path) {
                Err(m) => Err(m),
                Ok(w) => Ok(acc.push(w)),
            },
        }
    }
}

/// The watch profiles, by trimmed name, each layered over `base`; a name
/// that is empty or repeated, or a bad prefix, is an error.
pub open spec fn profiles_result(
    ps: Seq<(Seq<char>, WatchDefaultsView)>,
    base: WatchDefaultsView,
    path: Seq<char>,
) -> Result<Seq<(Seq<char>, WatchDefaultsView)>, Seq<char>>
    decreases ps.len(),
{
    if ps.len() == 0 {
        Ok(Seq::empty())
    } else {
        match profiles_result(ps.drop_last(), base, path) {
            Err(m) => Err(m),
            Ok(acc) => {
                let name = trim(ps.last().0);
                if name.len() == 0 {
                    Err("watch profile name cannot be empty in "@ + path)
                } else if emap(acc).contains_key(name) {
                    Err("duplicate watch profile '"@ + name + "' in "@ + path)
                } else {
                    match watch_checked(
                        ps.last().1,
                        "watch profile '"@ + name + "'"@ + " in "@ + path,
                    ) {
                        Err(m) => Err(m),
                        Ok(v) => Ok(acc.push((name, watch_merge(base, v)))),
                    }
                }
            },
        }
    }
}

/// The watch defaults table of a file, checked; empty when there is none.
pub open spec fn file_watch_defaults(w: Option<WatchDefaultsView>, context: Seq<char>) -> Result<
    WatchDefaultsView,
    Seq<char>,
> {
    match w {
        None => Ok(watch_empty()),
        Some(v) => watch_checked(v, context),
    }
}

pub open spec fn opt_wview(w: Option<super::raw::RawWatchDefaults>) -> Option<WatchDefaultsView> {
    match w {
        Some(v) => Some(v@),
        None => None,
    }
}

/// A feeds file under its directory's defaults `gf` and `gw`: the file's
/// feed defaults over `gf` fill its feeds; its watch defaults over `gw`,
/// and its profiles over those, fill its watches.
pub open spec fn file_result(
    f: RawFeedsFile,
    gf: FeedDefaultsView,
    gw: WatchDefaultsView,
    path: Seq<char>,
) -> Result<(Seq<RawFeedView>, Seq<RawWatchView>), Seq<char>> {
    match feed_checked(f.feed_fields(), "feed defaults in "@ + path) {
        Err(m) => Err(m),
        Ok(ff) => match feeds_applied(feed_views(f.feeds@), feed_merge(gf, ff), path) {
            Err(m) => Err(m),
            Ok(feeds) => match file_watch_defaults(
                opt_wview(f.watch_defaults),
                "watch defaults"@ + " in "@ + path,
            ) {
                Err(m) => Err(m),
                Ok(fw) => {
                    let wd = watch_merge(gw, fw);
                    match profiles_result(profile_views(f.watch_profiles@), wd, path) {
                        Err(m) => Err(m),
                        Ok(ps) => match watches_applied(watch_views(f.watches@), wd, emap(ps), path) {
                            Err(m) => Err(m),
                            Ok(ws) => Ok((feeds, ws)),
                        },
                    }
                },
            },
        },
    }
}

proof fn lemma_feeds_applied_err(fs: Seq<RawFeedView>, d: FeedDefaultsView, path: Seq<char>, n: int)
    requires
        0 <= n <= fs.len(),
        feeds_applied(fs.take(n), d, path) is Err,
    ensures
        feeds_applied(fs, d, path) == feeds_applied(fs.take(n), d, path),
    decreases fs.len() - n,
{
    if n < fs.len() {
        assert(fs.take(n + 1).drop_last() =~= fs.take(n));
        lemma_feeds_applied_err(fs, d, path, n + 1);
    } else {
        assert(fs.take(n) =~= fs);
    }
}

proof fn lemma_watches_applied_err(
    ws: Seq<RawWatchView>,
    d: WatchDefaultsView,
    profiles: Map<Seq<char>, WatchDefaultsView>,
    path: Seq<char>,
    n: int,
)
    requires
        0 <= n <= ws.len(),
        watches_applied(ws.take(n), d, profiles, path) is Err,
    ensures
        watches_applied(ws, d, profiles, path) == watches_applied(ws.take(n), d, profiles, path),
    decreases ws.len() - n,
{
    if n < ws.len() {
        assert(ws.take(n + 1).drop_last() =~= ws.take(n));
        lemma_watches_applied_err(ws, d, profiles, path, n + 1);
    } else {
        assert(ws.take(n) =~= ws);
    }
}

proof fn lemma_profiles_err(ps: Seq<(Seq<char>, WatchDefaultsView)>, base: WatchDefaultsView, path: Seq<char>, n: int)
    requires
        0 <= n <= ps.len(),
        profiles_result(ps.take(n), base, path) is Err,
    ensures
        profiles_result(ps, base, path) == profiles_result(ps.take(n), base, path),
    decreases ps.len() - n,
{
    if n < ps.len() {
        assert(ps.take(n + 1).drop_last() =~= ps.take(n));
        lemma_profiles_err(ps, base, path, n + 1);
    } else {
        assert(ps.take(n) =~= ps);
    }
}

/// Fills each feed from `d`.
fn apply_all_feeds(feeds: Vec<RawFeed>, d: &FeedDefaults, path: &str) -> (r: Result<Vec<RawFeed>, ConfigError>)
    ensures
        match feeds_applied(feed_views(feeds@), d@, path@) {
            Err(m) => r matches Err(e) && invalid(e, m),
            Ok(v) => r matches Ok(out) && feed_views(out@) == v,
        },
{
    let ghost fs = feed_views(feeds@);
    let mut rest = feeds;
    let mut out: Vec<RawFeed> = Vec::new();
    let mut i: usize = 0;
    proof {
        assert(fs.len() == feeds.len());
        assert(fs.take(0) =~= Seq::<RawFeedView>::empty());
        assert(feed_views(out@) =~= Seq::<RawFeedView>::empty());
        assert(feed_views(rest@) =~= fs.skip(0));
    }
    while rest.len() > 0
        invariant
            i + rest.len() == fs.len(),
            fs.len() <= usize::MAX,
            fs == feed_views(feeds@),
            feed_views(rest@) == fs.skip(i as int),
            feeds_applied(fs.take(i as int), d@, path@) == Ok::<Seq<RawFeedView>, Seq<char>>(feed_views(out@)),
        decreases rest.len(),
    {
        let ghost before = rest@;
        let f = rest.remove(0);
        proof {
            assert(feed_views(before)[0] == fs[i as int]);
            assert forall|j: int| 0 <= j < feed_views(rest@).len() implies feed_views(rest@)[j] == fs.skip(i + 1)[j] by {
                assert(rest@[j] == before[j + 1]);
                assert(feed_views(before)[j + 1] == fs.skip(i as int)[j + 1]);
            }
            assert(feed_views(rest@) =~= fs.skip(i + 1));
            assert(fs.take(i + 1).drop_last() =~= fs.take(i as int));
            assert(fs.take(i + 1).last() == fs[i as int]);
        }
        let g = match apply_feed_defaults(f, d, path) {
            Ok(g) => g,
            Err(e) => {
                proof {
                    lemma_feeds_applied_err(fs, d@, path@, i + 1);
                }
                return Err(e);
            },
        };
        let ghost prev = feed_views(out@);
        out.push(g);
        proof {
            assert(feed_views(out@) =~= prev.push(g@));
        }
        i = i + 1;
    }
    proof {
        assert(fs.take(i as int) =~= fs);
    }
    Ok(out)
}

/// Fills each watch from its profile or `d`.
fn apply_all_watches(
    watches: Vec<RawWatch>,
    d: &WatchDefaults,
    profiles: &Vec<(String, WatchDefaults)>,
    path: &str,
) -> (r: Result<Vec<RawWatch>, ConfigError>)
    requires
        unique_keys(eviews(profiles@)),
    ensures
        match watches_applied(watch_views(watches@), d@, emap(eviews(profiles@)), path@) {
            Err(m) => r matches Err(e) && invalid(e, m),
            Ok(v) => r matches Ok(out) && watch_views(out@) == v,
        },
{
    let ghost ws = watch_views(watches@);
    let ghost pm = emap(eviews(profiles@));
    let mut rest = watches;
    let mut out: Vec<RawWatch> = Vec::new();
    let mut i: usize = 0;
    proof {
        assert(ws.len() == watches.len());
        assert(ws.take(0) =~= Seq::<RawWatchView>::empty());
        assert(watch_views(out@) =~= Seq::<RawWatchView>::empty());
        assert(watch_views(rest@) =~= ws.skip(0));
    }
    while rest.len() > 0
        invariant
            i + rest.len() == ws.len(),
            ws.len() <= usize::MAX,
            ws == watch_views(watches@),
            pm == emap(eviews(profiles@)),
            unique_keys(eviews(profiles@)),
            watch_views(rest@) == ws.skip(i as int),
            watches_applied(ws.take(i as int), d@, pm, path@) == Ok::<Seq<RawWatchView>, Seq<char>>(watch_views(out@)),
        decreases rest.len(),
    {
        let ghost before = rest@;
        let w = rest.remove(0);
        proof {
            assert(watch_views(before)[0] == ws[i as int]);
            assert forall|j: int| 0 <= j < watch_views(rest@).len() implies watch_views(rest@)[j] == ws.skip(i + 1)[j] by {
                assert(rest@[j] == before[j + 1]);
                assert(watch_views(before)[j + 1] == ws.skip(i as int)[j + 1]);
            }
            assert(watch_views(rest@) =~= ws.skip(i + 1));
            assert(ws.take(i + 1).drop_last() =~= ws.take(i as int));
            assert(ws.take(i + 1).last() == ws[i as int]);
        }
        let g = match apply_watch_defaults(w, d, profiles, path) {
            Ok(g) => g,
            Err(e) => {
                proof {
                    lemma_watches_applied_err(ws, d@, pm, path@, i + 1);
                }
                return Err(e);
            },
        };
        let ghost prev = watch_views(out@);
        out.push(g);
        proof {
            assert(watch_views(out@) =~= prev.push(g@));
        }
        i = i + 1;
    }
    proof {
        assert(ws.take(i as int) =~= ws);
    }
    Ok(out)
}

/// The watch profiles of a file, each layered over `base`.
fn build_profiles(ps: &Vec<RawWatchProfile>, base: &WatchDefaults, path: &str) -> (r: Result<
    Vec<(String, WatchDefaults)>,
    ConfigError,
>)
    ensures
        match profiles_result(profile_views(ps@), base@, path@) {
            Err(m) => r matches Err(e) && invalid(e, m),
            Ok(v) => r matches Ok(out) && eviews(out@) == v && unique_keys(v),
        },
{
    let ghost pv = profile_views(ps@);
    let mut out: Vec<(String, WatchDefaults)> = Vec::new();
    let mut i: usize = 0;
    proof {
        assert(pv.take(0) =~= Seq::<(Seq<char>, WatchDefaultsView)>::empty());
        assert(eviews(out@) =~= Seq::<(Seq<char>, WatchDefaultsView)>::empty());
    }
    while i < ps.len()
        invariant
            i <= ps.len(),
            pv == profile_views(ps@),
            profiles_result(pv.take(i as int), base@, path@) == Ok::<Seq<(Seq<char>, WatchDefaultsView)>, Seq<char>>(eviews(out@)),
            unique_keys(eviews(out@)),
        decreases ps.len() - i,
    {
        proof {
            assert(pv.take(i + 1).drop_last() =~= pv.take(i as int));
            assert(pv.take(i + 1).last() == pv[i as int]);
        }
        let name_v = trim_str(ps[i].name.as_str());
        if name_v.len() == 0 {
            let mut msg: Vec<char> = Vec::new();
            push_str(&mut msg, "watch profile name cannot be empty in ");
            push_str(&mut msg, path);
            proof {
                lemma_profiles_err(pv, base@, path@, i + 1);
            }
            return Err(invalid_error(&msg));
        }
        let name = string_of(&name_v);
        match find_key(&out, name.as_str()) {
            Some(j) => {
                proof {
                    crate::sorted::lemma_emap_unique(eviews(out@));
                    assert(eviews(out@)[j as int].0 == name@);
                }
                let mut msg: Vec<char> = Vec::new();
                push_str(&mut msg, "duplicate watch profile '");
                push_all(&mut msg, &name_v);
                push_str(&mut msg, "' in ");
                push_str(&mut msg, path);
                proof {
                    lemma_profiles_err(pv, base@, path@, i + 1);
                }
                return Err(invalid_error(&msg));
            },
            None => {},
        }
        let mut label: Vec<char> = Vec::new();
        push_str(&mut label, "watch profile '");
        push_all(&mut label, &name_v);
        push_str(&mut label, "'");
        let label_s = string_of(&label);
        let raw_profile = match WatchDefaults::from_optional(Some(&ps[i].defaults), path, label_s.as_str()) {
            Ok(p) => p,
            Err(e) => {
                proof {
                    lemma_profiles_err(pv, base@, path@, i + 1);
                }
                return Err(e);
            },
        };
        let merged = WatchDefaults::merge(base, &raw_profile);
        proof {
            lemma_emap_push(eviews(out@), name@, merged@);
        }
        let ghost prev = eviews(out@);
        out.push((name, merged));
        proof {
            assert(eviews(out@) =~= prev.push((name_v@, merged@)));
        }
        i = i + 1;
    }
    proof {
        assert(pv.take(ps.len() as int) =~= pv);
    }
    Ok(out)
}

/// The feeds and watches of one feeds file, filled from the file's own
/// defaults layered over its directory's (`global_feed`, `global_watch`).
pub fn merge_feeds_file(
    parsed: RawFeedsFile,
    global_feed: &FeedDefaults,
    global_watch: &WatchDefaults,
    path: &str,
) -> (r: Result<(Vec<RawFeed>, Vec<RawWatch>), ConfigError>)
    ensures
        match file_result(parsed, global_feed@, global_watch@, path@) {
            Err(m) => r matches Err(e) && invalid(e, m),
            Ok(v) => r matches Ok(out) && feed_views(out.0@) == v.0 && watch_views(out.1@) == v.1,
        },
{
    let file_feed = match FeedDefaults::from_file(&parsed, path) {
        Ok(d) => d,
        Err(e) => return Err(e),
    };
    let feed_defaults = FeedDefaults::merge(global_feed, &file_feed);
    let RawFeedsFile { feeds, watch_defaults, watch_profiles, watches, .. } = parsed;
    let all_feeds = match apply_all_feeds(feeds, &feed_defaults, path) {
        Ok(v) => v,
        Err(e) => return Err(e),
    };
    let file_watch = match WatchDefaults::from_optional(
        match &watch_defaults {
            Some(w) => Some(w),
            None => None,
        },
        path,
        "watch defaults",
    ) {
        Ok(d) => d,
        Err(e) => return Err(e),
    };
    let watch_defaults = WatchDefaults::merge(global_watch, &file_watch);
    let profiles = match build_profiles(&watch_profiles, &watch_defaults, path) {
        Ok(p) => p,
        Err(e) => return Err(e),
    };
    let all_watches = match apply_all_watches(watches, &watch_defaults, &profiles, path) {
        Ok(v) => v,
        Err(e) => return Err(e),
    };
    Ok((all_feeds, all_watches))
}

/// The defaults of a feeds directory.
#[derive(Debug)]
pub struct MergedDefaults {
    pub feed: FeedDefaults,
    pub watch: WatchDefaults,
}

/// The defaults of a directory from its global file, checked; empty
/// defaults when there is no such file.
pub fn global_defaults(parsed: Option<&RawFeedDefaults>, path: &str) -> (r: Result<MergedDefaults, ConfigError>)
    ensures
        match parsed {
            None => r matches Ok(d) && d.feed@ == feed_empty() && d.watch@ == watch_empty(),
            Some(p) => match feed_checked(p.feed_fields(), "global defaults in "@ + path@) {
                Err(m) => r matches Err(e) && invalid(e, m),
                Ok(fd) => match file_watch_defaults(
                    opt_wview(p.watch_defaults),
                    "global watch defaults"@ + " in "@ + path@,
                ) {
                    Err(m) => r matches Err(e) && invalid(e, m),
                    Ok(wd) => r matches Ok(d) && d.feed@ == fd && d.watch@ == wd,
                },
            },
        },
{
    match parsed {
        None => Ok(MergedDefaults { feed: FeedDefaults::empty(), watch: WatchDefaults::empty() }),
        Some(p) => {
            let feed = match FeedDefaults::from_defaults_file(p, path) {
                Ok(d) => d,
                Err(e) => return Err(e),
            };
            let watch = match WatchDefaults::from_optional(
                match &p.watch_defaults {
                    Some(w) => Some(w),
                    None => None,
                },
                path,
                "global watch defaults",
            ) {
                Ok(d) => d,
                Err(e) => return Err(e),
            };
            Ok(MergedDefaults { feed, watch })
        },
    }
}

} // verus!
