//! Assembling the sources of the configuration: feeds and watches checked
//! against the categories, with no source id used twice.

use vstd::prelude::*;

use super::categories::{contains_name, CategoryIndex};
use super::error::{copy_str, invalid, invalid_error, strs, ConfigError};
use super::raw::{RawFeed, RawFeedView, RawWatch, RawWatchView};
use super::sources::{url_host_of, build_feed, feed_built, feed_parts, parse_watch, watch_built, watch_parts, WatchParts};
use crate::entries::eviews;
use crate::model::{CategoryConfig, FeedConfig, WatchConfig};
use crate::sorted::{emap, unique_keys};
use crate::text::push_str;

verus! {

/// Each feed (or watch) with the host of its URL, when it has one.
pub open spec fn fviews(v: Seq<RawFeed>) -> Seq<(RawFeedView, Option<Seq<char>>)> {
    v.map_values(|f: RawFeed| (f@, url_host_of(f@.url)))
}

pub open spec fn wviews(v: Seq<RawWatch>) -> Seq<(RawWatchView, Option<Seq<char>>)> {
    v.map_values(|w: RawWatch| (w@, url_host_of(w@.url)))
}

pub open spec fn dup_msg(id: Seq<char>) -> Seq<char> {
    "duplicate source id '"@ + id + "'"@
}

/// Domain and category of each feed in order; the first failing check, or
/// an id already used (by an earlier feed or in `taken`), is the error.
pub open spec fn feeds_result(
    fs: Seq<(RawFeedView, Option<Seq<char>>)>,
    taken: Seq<Seq<char>>,
    names: Seq<Seq<char>>,
    d2c: Map<Seq<char>, Seq<char>>,
) -> Result<Seq<(Seq<char>, Seq<char>)>, Seq<char>>
    decreases fs.len(),
{
    if fs.len() == 0 {
        Ok(Seq::empty())
    } else {
        match feeds_result(fs.drop_last(), taken, names, d2c) {
            Err(m) => Err(m),
            Ok(ps) => match feed_parts(fs.last().0, fs.last().1, names, d2c) {
                Err(m) => Err(m),
                Ok(p) => if (taken + feed_ids(fs.drop_last())).contains(fs.last().0.id) {
                    Err(dup_msg(fs.last().0.id))
                } else {
                    Ok(ps.push(p))
                },
            },
        }
    }
}

pub open spec fn feed_ids(fs: Seq<(RawFeedView, Option<Seq<char>>)>) -> Seq<Seq<char>> {
    fs.map_values(|p: (RawFeedView, Option<Seq<char>>)| p.0.id)
}

pub open spec fn watch_ids(ws: Seq<(RawWatchView, Option<Seq<char>>)>) -> Seq<Seq<char>> {
    ws.map_values(|p: (RawWatchView, Option<Seq<char>>)| p.0.id)
}

/// What the options of each watch resolve to; the first failing check, or
/// an id already used (by an earlier watch or in `taken`), is the error.
pub open spec fn watches_result(
    ws: Seq<(RawWatchView, Option<Seq<char>>)>,
    taken: Seq<Seq<char>>,
    names: Seq<Seq<char>>,
    d2c: Map<Seq<char>, Seq<char>>,
) -> Result<Seq<WatchParts>, Seq<char>>
    decreases ws.len(),
{
    if ws.len() == 0 {
        Ok(Seq::empty())
    } else {
        match watches_result(ws.drop_last(), taken, names, d2c) {
            Err(m) => Err(m),
            Ok(ps) => match watch_parts(ws.last().0, ws.last().1, names, d2c) {
                Err(m) => Err(m),
                Ok(p) => if (taken + watch_ids(ws.drop_last())).contains(ws.last().0.id) {
                    Err(dup_msg(ws.last().0.id))
                } else {
                    Ok(ps.push(p))
                },
            },
        }
    }
}

/// The checked sources of a configuration.
#[derive(Debug)]
pub struct LoadedSources {
    pub feeds: Vec<FeedConfig>,
    pub watches: Vec<WatchConfig>,
    pub categories: Vec<CategoryConfig>,
}

/// Loads and checks configurations.
pub struct ConfigLoader;

proof fn lemma_feeds_err_prefix(
    fs: Seq<(RawFeedView, Option<Seq<char>>)>,
    taken: Seq<Seq<char>>,
    names: Seq<Seq<char>>,
    d2c: Map<Seq<char>, Seq<char>>,
    n: int,
)
    requires
        0 <= n <= fs.len(),
        feeds_result(fs.take(n), taken, names, d2c) is Err,
    ensures
        feeds_result(fs, taken, names, d2c) == feeds_result(fs.take(n), taken, names, d2c),
    decreases fs.len() - n,
{
    if n < fs.len() {
        assert(fs.take(n + 1).drop_last() =~= fs.take(n));
        lemma_feeds_err_prefix(fs, taken, names, d2c, n + 1);
    } else {
        assert(fs.take(n) =~= fs);
    }
}

proof fn lemma_watches_err_prefix(
    ws: Seq<(RawWatchView, Option<Seq<char>>)>,
    taken: Seq<Seq<char>>,
    names: Seq<Seq<char>>,
    d2c: Map<Seq<char>, Seq<char>>,
    n: int,
)
    requires
        0 <= n <= ws.len(),
        watches_result(ws.take(n), taken, names, d2c) is Err,
    ensures
        watches_result(ws, taken, names, d2c) == watches_result(ws.take(n), taken, names, d2c),
    decreases ws.len() - n,
{
    if n < ws.len() {
        assert(ws.take(n + 1).drop_last() =~= ws.take(n));
        lemma_watches_err_prefix(ws, taken, names, d2c, n + 1);
    } else {
        assert(ws.take(n) =~= ws);
    }
}

fn dup_error(id: &String) -> (e: ConfigError)
    ensures
        invalid(e, dup_msg(id@)),
{
    let mut msg: Vec<char> = Vec::new();
    push_str(&mut msg, "duplicate source id '");
    push_str(&mut msg, id.as_str());
    push_str(&mut msg, "'");
    invalid_error(&msg)
}

impl ConfigLoader {
    /// The feeds and then the watches of a configuration, checked in order
    /// against the categories of `index`, each with the lower-cased host of
    /// its URL as its domain; no two sources may share an id.
    pub fn build_sources(
        index: CategoryIndex,
        feeds: Vec<RawFeed>,
        watches: Vec<RawWatch>,
        default_poll_seconds: u64,
    ) -> (r: Result<LoadedSources, ConfigError>)
        requires
            unique_keys(eviews(index.domain_to_category@)),
        ensures
            ({
                let names = strs(index.names@);
                let d2c = emap(eviews(index.domain_to_category@));
                let fs = fviews(feeds@);
                let ws = wviews(watches@);
                match feeds_result(fs, Seq::empty(), names, d2c) {
                    Err(m) => r matches Err(e) && invalid(e, m),
                    Ok(fp) => match watches_result(ws, feed_ids(fs), names, d2c) {
                        Err(m) => r matches Err(e) && invalid(e, m),
                        Ok(wp) => r matches Ok(s) && {
                            &&& s.categories@ == index.categories@
                            &&& s.feeds.len() == fs.len()
                            &&& forall|i: int| 0 <= i < fs.len() ==> feed_built(
                                #[trigger] s.feeds@[i],
                                fs[i].0,
                                fp[i].0,
                                fp[i].1,
                                default_poll_seconds,
                            )
                            &&& s.watches.len() == ws.len()
                            &&& forall|i: int| 0 <= i < ws.len() ==> watch_built(
                                #[trigger] s.watches@[i],
                                ws[i].0,
                                wp[i],
                                default_poll_seconds,
                            )
                        },
                    },
                }
            }),
    {
        let ghost names = strs(index.names@);
        let ghost d2c = emap(eviews(index.domain_to_category@));
        let ghost fs = fviews(feeds@);
        let ghost ws = wviews(watches@);
        let mut ids: Vec<String> = Vec::new();
        let mut out_feeds: Vec<FeedConfig> = Vec::new();
        let mut rest = feeds;
        let ghost mut fp: Seq<(Seq<char>, Seq<char>)> = Seq::empty();
        let mut i: usize = 0;
        proof {
            assert(fs.len() == feeds.len());
            assert(ws.len() == watches.len());
            assert(fs.take(0) =~= Seq::<(RawFeedView, Option<Seq<char>>)>::empty());
            assert(fviews(rest@) =~= fs.skip(0));
            assert(strs(ids@) =~= feed_ids(fs.take(0)));
        }
        while rest.len() > 0
            invariant
                i + rest.len() == fs.len(),
                fs.len() <= usize::MAX,
                fs == fviews(feeds@),
                ws == wviews(watches@),
                fviews(rest@) == fs.skip(i as int),
                names == strs(index.names@),
                d2c == emap(eviews(index.domain_to_category@)),
                unique_keys(eviews(index.domain_to_category@)),
                feeds_result(fs.take(i as int), Seq::empty(), names, d2c) == Ok::<Seq<(Seq<char>, Seq<char>)>, Seq<char>>(fp),
                strs(ids@) == feed_ids(fs.take(i as int)),
                out_feeds.len() == i,
                fp.len() == i,
                forall|j: int| 0 <= j < i ==> feed_built(#[trigger] out_feeds@[j], fs[j].0, fp[j].0, fp[j].1, default_poll_seconds),
            decreases rest.len(),
        {
            proof {
                assert(fviews(rest@)[0] == fs[i as int]);
                assert(fs.take(i + 1).drop_last() =~= fs.take(i as int));
                assert(fs.take(i + 1).last() == fs[i as int]);
                assert(Seq::<Seq<char>>::empty() + feed_ids(fs.take(i as int)) =~= feed_ids(fs.take(i as int)));
            }
            let ghost before = rest@;
            let f = rest.remove(0);
            proof {
                assert(fviews(before)[0] == fs[i as int]);
                assert forall|j: int| 0 <= j < fviews(rest@).len() implies fviews(rest@)[j] == fs.skip(i + 1)[j] by {
                    assert(rest@[j] == before[j + 1]);
                    assert(fviews(before)[j + 1] == fs.skip(i as int)[j + 1]);
                }
                assert(fviews(rest@) =~= fs.skip(i + 1));
                assert(f@ == fs[i as int].0);
                assert(url_host_of(f@.url) == fs[i as int].1);
            }
            let id = copy_str(&f.id);
            let c = match build_feed(f, default_poll_seconds, &index.names, &index.domain_to_category) {
                Ok(c) => c,
                Err(e) => {
                    proof {
                        lemma_feeds_err_prefix(fs, Seq::empty(), names, d2c, i + 1);
                    }
                    return Err(e);
                },
            };
            if contains_name(&ids, id.as_str()) {
                let e = dup_error(&id);
                proof {
                    lemma_feeds_err_prefix(fs, Seq::empty(), names, d2c, i + 1);
                }
                return Err(e);
            }
            let ghost p = feed_parts(fs[i as int].0, fs[i as int].1, names, d2c)->Ok_0;
            proof {
                fp = fp.push(p);
                assert(id@ == fs[i as int].0.id);
                assert(strs(ids@.push(id)) =~= strs(ids@).push(id@));
                assert(feed_ids(fs.take(i + 1)) =~= feed_ids(fs.take(i as int)).push(fs[i as int].0.id));
            }
            ids.push(id);
            let ghost before_out = out_feeds@;
            out_feeds.push(c);
            proof {
                assert(feed_built(c, fs[i as int].0, p.0, p.1, default_poll_seconds));
                assert forall|j: int| 0 <= j < i + 1 implies feed_built(
                    #[trigger] out_feeds@[j],
                    fs[j].0,
                    fp[j].0,
                    fp[j].1,
                    default_poll_seconds,
                ) by {
                    if j < i {
                        assert(out_feeds@[j] == before_out[j]);
                    }
                }
            }
            i = i + 1;
        }
        proof {
            assert(fs.take(i as int) =~= fs);
        }
        let ghost taken = feed_ids(fs);
        let mut out_watches: Vec<WatchConfig> = Vec::new();
        let mut wrest = watches;
        let ghost mut wp: Seq<WatchParts> = Seq::empty();
        let mut k: usize = 0;
        proof {
            assert(ws.take(0) =~= Seq::<(RawWatchView, Option<Seq<char>>)>::empty());
            assert(wviews(wrest@) =~= ws.skip(0));
            assert(strs(ids@) =~= taken + watch_ids(ws.take(0)));
        }
        while wrest.len() > 0
            invariant
                k + wrest.len() == ws.len(),
                ws.len() <= usize::MAX,
                fs == fviews(feeds@),
                ws == wviews(watches@),
                wviews(wrest@) == ws.skip(k as int),
                names == strs(index.names@),
                d2c == emap(eviews(index.domain_to_category@)),
                unique_keys(eviews(index.domain_to_category@)),
                feeds_result(fs, Seq::empty(), names, d2c) == Ok::<Seq<(Seq<char>, Seq<char>)>, Seq<char>>(fp),
                taken == feed_ids(fs),
                watches_result(ws.take(k as int), taken, names, d2c) == Ok::<Seq<WatchParts>, Seq<char>>(wp),
                strs(ids@) == taken + watch_ids(ws.take(k as int)),
                out_watches.len() == k,
                wp.len() == k,
                forall|j: int| 0 <= j < k ==> watch_built(#[trigger] out_watches@[j], ws[j].0, wp[j], default_poll_seconds),
            decreases wrest.len(),
        {
            proof {
                assert(wviews(wrest@)[0] == ws[k as int]);
                assert(ws.take(k + 1).drop_last() =~= ws.take(k as int));
                assert(ws.take(k + 1).last() == ws[k as int]);
            }
            let ghost before = wrest@;
            let w = wrest.remove(0);
            proof {
                assert(wviews(before)[0] == ws[k as int]);
                assert forall|j: int| 0 <= j < wviews(wrest@).len() implies wviews(wrest@)[j] == ws.skip(k + 1)[j] by {
                    assert(wrest@[j] == before[j + 1]);
                    assert(wviews(before)[j + 1] == ws.skip(k as int)[j + 1]);
                }
                assert(wviews(wrest@) =~= ws.skip(k + 1));
                assert(w@ == ws[k as int].0);
                assert(url_host_of(w@.url) == ws[k as int].1);
            }
            let id = copy_str(&w.id);
            let c = match parse_watch(w, default_poll_seconds, &index.names, &index.domain_to_category) {
                Ok(c) => c,
                Err(e) => {
                    proof {
                        lemma_watches_err_prefix(ws, taken, names, d2c, k + 1);
                    }
                    return Err(e);
                },
            };
            if contains_name(&ids, id.as_str()) {
                let e = dup_error(&id);
                proof {
                    lemma_watches_err_prefix(ws, taken, names, d2c, k + 1);
                }
                return Err(e);
            }
            let ghost p = watch_parts(ws[k as int].0, ws[k as int].1, names, d2c)->Ok_0;
            proof {
                wp = wp.push(p);
                assert(id@ == ws[k as int].0.id);
                assert(strs(ids@.push(id)) =~= strs(ids@).push(id@));
                assert(watch_ids(ws.take(k + 1)) =~= watch_ids(ws.take(k as int)).push(ws[k as int].0.id));
                assert(taken + watch_ids(ws.take(k + 1)) =~= (taken + watch_ids(ws.take(k as int))).push(ws[k as int].0.id));
            }
            ids.push(id);
            let ghost before_out = out_watches@;
            out_watches.push(c);
            proof {
                assert(watch_built(c, ws[k as int].0, p, default_poll_seconds));
                assert forall|j: int| 0 <= j < k + 1 implies watch_built(
                    #[trigger] out_watches@[j],
                    ws[j].0,
                    wp[j],
                    default_poll_seconds,
                ) by {
                    if j < k {
                        assert(out_watches@[j] == before_out[j]);
                    }
                }
            }
            k = k + 1;
        }
        proof {
            assert(ws.take(k as int) =~= ws);
        }
        Ok(LoadedSources { feeds: out_feeds, watches: out_watches, categories: index.categories })
    }
}


proof fn lemma_feeds_ids(
    fs: Seq<(RawFeedView, Option<Seq<char>>)>,
    taken: Seq<Seq<char>>,
    names: Seq<Seq<char>>,
    d2c: Map<Seq<char>, Seq<char>>,
)
    requires
        feeds_result(fs, taken, names, d2c) is Ok,
    ensures
        forall|i: int, j: int| 0 <= i < j < fs.len() ==> #[trigger] feed_ids(fs)[i] != #[trigger] feed_ids(fs)[j],
        forall|i: int| 0 <= i < fs.len() ==> !taken.contains(#[trigger] feed_ids(fs)[i]),
    decreases fs.len(),
{
    if fs.len() > 0 {
        let p = fs.drop_last();
        lemma_feeds_ids(p, taken, names, d2c);
        let ids = feed_ids(fs);
        assert(feed_ids(p) =~= ids.drop_last());
        let last = fs.last().0.id;
        assert(!(taken + feed_ids(p)).contains(last));
        assert forall|i: int| 0 <= i < fs.len() implies !taken.contains(#[trigger] feed_ids(fs)[i]) by {
            if i == fs.len() - 1 {
                if taken.contains(last) {
                    let k = choose|k: int| 0 <= k < taken.len() && taken[k] == last;
                    assert((taken + feed_ids(p))[k] == last);
                }
            } else {
                assert(feed_ids(p)[i] == ids[i]);
            }
        }
        assert forall|i: int, j: int| 0 <= i < j < fs.len() implies #[trigger] feed_ids(fs)[i] != #[trigger] feed_ids(fs)[j] by {
            if j == fs.len() - 1 {
                assert(feed_ids(p)[i] == ids[i]);
                assert((taken + feed_ids(p))[taken.len() + i] == ids[i]);
            } else {
                assert(feed_ids(p)[i] == ids[i] && feed_ids(p)[j] == ids[j]);
            }
        }
    }
}

proof fn lemma_watches_ids(
    ws: Seq<(RawWatchView, Option<Seq<char>>)>,
    taken: Seq<Seq<char>>,
    names: Seq<Seq<char>>,
    d2c: Map<Seq<char>, Seq<char>>,
)
    requires
        watches_result(ws, taken, names, d2c) is Ok,
    ensures
        forall|i: int, j: int| 0 <= i < j < ws.len() ==> #[trigger] watch_ids(ws)[i] != #[trigger] watch_ids(ws)[j],
        forall|i: int| 0 <= i < ws.len() ==> !taken.contains(#[trigger] watch_ids(ws)[i]),
    decreases ws.len(),
{
    if ws.len() > 0 {
        let p = ws.drop_last();
        lemma_watches_ids(p, taken, names, d2c);
        let ids = watch_ids(ws);
        assert(watch_ids(p) =~= ids.drop_last());
        let last = ws.last().0.id;
        assert(!(taken + watch_ids(p)).contains(last));
        assert forall|i: int| 0 <= i < ws.len() implies !taken.contains(#[trigger] watch_ids(ws)[i]) by {
            if i == ws.len() - 1 {
                if taken.contains(last) {
                    let k = choose|k: int| 0 <= k < taken.len() && taken[k] == last;
                    assert((taken + watch_ids(p))[k] == last);
                }
            } else {
                assert(watch_ids(p)[i] == ids[i]);
            }
        }
        assert forall|i: int, j: int| 0 <= i < j < ws.len() implies #[trigger] watch_ids(ws)[i] != #[trigger] watch_ids(ws)[j] by {
            if j == ws.len() - 1 {
                assert(watch_ids(p)[i] == ids[i]);
                assert((taken + watch_ids(p))[taken.len() + i] == ids[i]);
            } else {
                assert(watch_ids(p)[i] == ids[i] && watch_ids(p)[j] == ids[j]);
            }
        }
    }
}

/// Sources that were assembled have distinct ids: no feed or watch shares
/// its id with another feed or watch.
pub proof fn lemma_source_ids_unique(
    fs: Seq<(RawFeedView, Option<Seq<char>>)>,
    ws: Seq<(RawWatchView, Option<Seq<char>>)>,
    names: Seq<Seq<char>>,
    d2c: Map<Seq<char>, Seq<char>>,
)
    requires
        feeds_result(fs, Seq::empty(), names, d2c) is Ok,
        watches_result(ws, feed_ids(fs), names, d2c) is Ok,
    ensures
        ({
            let ids = feed_ids(fs) + watch_ids(ws);
            forall|i: int, j: int| 0 <= i < j < ids.len() ==> #[trigger] ids[i] != #[trigger] ids[j]
        }),
{
    lemma_feeds_ids(fs, Seq::empty(), names, d2c);
    lemma_watches_ids(ws, feed_ids(fs), names, d2c);
    let ids = feed_ids(fs) + watch_ids(ws);
    assert forall|i: int, j: int| 0 <= i < j < ids.len() implies #[trigger] ids[i] != #[trigger] ids[j] by {
        if j >= fs.len() && i < fs.len() {
            assert(ids[j] == watch_ids(ws)[j - fs.len()]);
            assert(ids[i] == feed_ids(fs)[i]);
            assert(feed_ids(fs)[i] == ids[i]);
        } else if j >= fs.len() {
            assert(ids[j] == watch_ids(ws)[j - fs.len()]);
            assert(ids[i] == watch_ids(ws)[i - fs.len()]);
        } else {
            assert(ids[j] == feed_ids(fs)[j]);
            assert(ids[i] == feed_ids(fs)[i]);
        }
    }
}

} // verus!
