//! The fetcher's start: its arguments and the feeds of an ingest
//! benchmark.

use vstd::prelude::*;

use crate::config::error::os;
use crate::model::FeedConfig;
use crate::text::{chars_of, dec, push_all, push_str, string_of, u64_dec};

verus! {

/// What the fetcher runs.
#[derive(Debug, Clone, Copy, PartialEq, Eq, Structural)]
pub enum RunMode {
    Scheduler,
    IngestBenchmark { feeds_to_insert: usize },
}

/// The fetcher's arguments.
#[derive(Debug)]
pub struct Args {
    pub config_path: Option<String>,
    pub mode: RunMode,
}

pub open spec fn is_digit(c: char) -> bool {
    '0' <= c && c <= '9'
}

/// The value of a run of decimal digits.
pub open spec fn digits_value(s: Seq<char>) -> nat
    decreases s.len(),
{
    if s.len() == 0 {
        0
    } else {
        digits_value(s.drop_last()) * 10 + (s.last() as nat - '0' as nat) as nat
    }
}

/// The text after an optional leading `+`.
pub open spec fn unsigned_digits(s: Seq<char>) -> Seq<char> {
    if s.len() > 0 && s[0] == '+' {
        s.drop_first()
    } else {
        s
    }
}

pub open spec fn all_digits(d: Seq<char>) -> bool {
    forall|i: int| 0 <= i < d.len() ==> is_digit(#[trigger] d[i])
}

/// What `str::parse::<usize>` gives: decimal digits after an optional
/// `+`, and a value that fits.
pub open spec fn usize_from_text(s: Seq<char>) -> Option<usize> {
    let d = unsigned_digits(s);
    if d.len() > 0 && all_digits(d) && digits_value(d) <= usize::MAX {
        Some(digits_value(d) as usize)
    } else {
        None
    }
}

proof fn lemma_digits_grow(s: Seq<char>, k: int)
    requires
        0 <= k <= s.len(),
        forall|i: int| 0 <= i < s.len() ==> is_digit(#[trigger] s[i]),
    ensures
        digits_value(s.take(k)) <= digits_value(s),
    decreases s.len() - k,
{
    if k < s.len() {
        lemma_digits_grow(s, k + 1);
        let t = s.take(k + 1);
        assert(t.drop_last() =~= s.take(k));
        assert(t.last() == s[k]);
        assert(is_digit(s[k]));
        assert(digits_value(t) == digits_value(s.take(k)) * 10 + (s[k] as nat - '0' as nat) as nat);
    } else {
        assert(s.take(k) =~= s);
    }
}

/// The text as a `usize` (see `usize_from_text`).
fn parse_usize(s: &str) -> (r: Option<usize>)
    ensures
        r == usize_from_text(s@),
{
    let v = chars_of(s);
    let start: usize = if v.len() > 0 && v[0] == '+' {
        1
    } else {
        0
    };
    let ghost d = if v@.len() > 0 && v@[0] == '+' {
        v@.drop_first()
    } else {
        v@
    };
    proof {
        assert(d =~= v@.skip(start as int));
    }
    if start >= v.len() {
        return None;
    }
    let mut acc: usize = 0;
    let mut i: usize = start;
    while i < v.len()
        invariant
            start <= i <= v.len(),
            v@ == s@,
            d == v@.skip(start as int),
            d == unsigned_digits(s@),
            d.len() > 0,
            acc == digits_value(d.take(i - start)),
            forall|j: int| 0 <= j < i - start ==> is_digit(#[trigger] d[j]),
        decreases v.len() - i,
    {
        let c = v[i];
        assert(c == d[i - start]);
        if !('0' <= c && c <= '9') {
            assert(!is_digit(d[i - start as int]));
            assert(!all_digits(d));
            return None;
        }
        let digit = (c as u32 - '0' as u32) as usize;
        proof {
            let t = d.take(i - start + 1);
            assert(t.drop_last() =~= d.take(i - start));
            assert(t.last() == c);
            assert(digits_value(t) == acc * 10 + digit);
        }
        let next = match acc.checked_mul(10) {
            Some(m) => m.checked_add(digit),
            None => None,
        };
        match next {
            Some(n) => {
                acc = n;
            },
            None => {
                proof {
                    assert(acc * 10 + digit > usize::MAX);
                    if all_digits(d) {
                        lemma_digits_grow(d, i - start + 1);
                    }
                }
                return None;
            },
        }
        i = i + 1;
    }
    proof {
        assert(d.take(d.len() as int) =~= d);
    }
    Some(acc)
}

pub struct ArgsView {
    pub config_path: Option<Seq<char>>,
    pub mode: RunMode,
}

/// The arguments from position `i` on, read over `st`: `--ingest-benchmark N`
/// selects the benchmark with `N` feeds (0 when `N` is no count); any other
/// argument is the configuration path (the last one wins).
pub open spec fn scan_args(args: Seq<Seq<char>>, i: int, st: ArgsView) -> ArgsView
    decreases args.len() - i,
{
    if i < 0 || i >= args.len() {
        st
    } else if args[i] == "--ingest-benchmark"@ {
        if i + 1 < args.len() {
            scan_args(
                args,
                i + 2,
                ArgsView {
                    mode: RunMode::IngestBenchmark {
                        feeds_to_insert: match usize_from_text(args[i + 1]) {
                            Some(n) => n,
                            None => 0,
                        },
                    },
                    ..st
                },
            )
        } else {
            st
        }
    } else {
        scan_args(args, i + 1, ArgsView { config_path: Some(args[i]), ..st })
    }
}

/// The fetcher's arguments (those after the program name).
pub fn parse_args(args: &Vec<String>) -> (r: Args)
    ensures
        ({
            let v = scan_args(
                crate::config::error::strs(args@),
                0,
                ArgsView { config_path: None, mode: RunMode::Scheduler },
            );
            os(r.config_path) == v.config_path && r.mode == v.mode
        }),
{
    let ghost a = crate::config::error::strs(args@);
    let mut config_path: Option<String> = None;
    let mut mode = RunMode::Scheduler;
    let mut i: usize = 0;
    while i < args.len()
        invariant
            i <= args.len(),
            a == crate::config::error::strs(args@),
            scan_args(a, 0, ArgsView { config_path: None, mode: RunMode::Scheduler }) == scan_args(
                a,
                i as int,
                ArgsView { config_path: os(config_path), mode },
            ),
        decreases args.len() - i,
    {
        let ghost st = ArgsView { config_path: os(config_path), mode };
        if crate::entries::name_eq(args[i].as_str(), "--ingest-benchmark") {
            if i + 1 < args.len() {
                let n = match parse_usize(args[i + 1].as_str()) {
                    Some(n) => n,
                    None => 0,
                };
                mode = RunMode::IngestBenchmark { feeds_to_insert: n };
                proof {
                    assert(a[i + 1] == args@[i + 1]@);
                }
                i = i + 2;
            } else {
                i = i + 1;
                proof {
                    assert(scan_args(a, i as int, st) == st);
                }
            }
        } else {
            config_path = Some(args[i].clone());
            i = i + 1;
        }
    }
    Args { config_path, mode }
}

/// `count` synthetic feeds `bench-0`, `bench-1`, ... on one domain, in
/// category `category`, polled every `default_poll_seconds`.
pub fn benchmark_feed_stream(count: usize, default_poll_seconds: u64, category: String) -> (r: Vec<FeedConfig>)
    requires
        count <= u64::MAX,
    ensures
        r.len() == count,
        forall|i: int| #![trigger r@[i]] 0 <= i < count ==> {
            &&& r@[i].id@ == "bench-"@ + dec(i as nat)
            &&& r@[i].url@ == "https://bench.example.com/"@ + dec(i as nat) + ".xml"@
            &&& r@[i].domain@ == "bench.example.com"@
            &&& r@[i].category@ == category@
            &&& r@[i].base_poll_seconds == default_poll_seconds
            &&& r@[i].provenance is None && r@[i].tags is None && r@[i].language is None
            &&& r@[i].content_type is None && r@[i].cookie_path is None
            &&& r@[i].headers_path is None && r@[i].headers is None
        },
{
    let mut out: Vec<FeedConfig> = Vec::new();
    let mut i: usize = 0;
    while i < count
        invariant
            i <= count <= u64::MAX,
            out.len() == i,
            forall|j: int| #![trigger out@[j]] 0 <= j < i ==> {
                &&& out@[j].id@ == "bench-"@ + dec(j as nat)
                &&& out@[j].url@ == "https://bench.example.com/"@ + dec(j as nat) + ".xml"@
                &&& out@[j].domain@ == "bench.example.com"@
                &&& out@[j].category@ == category@
                &&& out@[j].base_poll_seconds == default_poll_seconds
                &&& out@[j].provenance is None && out@[j].tags is None && out@[j].language is None
                &&& out@[j].content_type is None && out@[j].cookie_path is None
                &&& out@[j].headers_path is None && out@[j].headers is None
            },
        decreases count - i,
    {
        let d = u64_dec(i as u64);
        let mut id: Vec<char> = Vec::new();
        push_str(&mut id, "bench-");
        push_all(&mut id, &d);
        let mut url: Vec<char> = Vec::new();
        push_str(&mut url, "https://bench.example.com/");
        push_all(&mut url, &d);
        push_str(&mut url, ".xml");
        let f = FeedConfig {
            id: string_of(&id),
            url: string_of(&url),
            domain: string_of(&chars_of("bench.example.com")),
            category: category.clone(),
            base_poll_seconds: default_poll_seconds,
            provenance: None,
            tags: None,
            language: None,
            content_type: None,
            cookie_path: None,
            headers_path: None,
            headers: None,
        };
        let ghost before = out@;
        out.push(f);
        proof {
            assert forall|j: int| #![trigger out@[j]] 0 <= j < i ==> out@[j] == before[j] by {}
        }
        i = i + 1;
    }
    out
}

} // verus!
