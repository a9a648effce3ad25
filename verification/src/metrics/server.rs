//! The answer of the statistics endpoint to a raw HTTP request.

use vstd::prelude::*;

use super::render::{render, render_text};
use super::Metrics;
use crate::text::{before_first, before_first_vec, chars_of, dec, is_ws, is_ws_char, push_all, push_str, string_of, u64_dec};

verus! {

/// The runs of non-white-space chars (what `str::split_whitespace` yields).
pub open spec fn tokens(s: Seq<char>) -> Seq<Seq<char>>
    decreases s.len(),
{
    if s.len() == 0 {
        Seq::empty()
    } else {
        let t = tokens(s.drop_last());
        let c = s.last();
        if is_ws(c) {
            t
        } else if s.len() >= 2 && !is_ws(s[s.len() - 2]) && t.len() > 0 {
            t.drop_last().push(t.last().push(c))
        } else {
            t.push(seq![c])
        }
    }
}

/// The requested path: the second word of the first line, else `/`.
pub open spec fn request_path(req: Seq<char>) -> Seq<char> {
    let words = tokens(before_first(req, '\n'));
    if words.len() >= 2 {
        words[1]
    } else {
        "/"@
    }
}

/// Everything between the status and the body length of a response.
pub const HEAD_MID: &'static str = "\r\nContent-Type: text/plain; version=0.0.4\r\nContent-Length: ";

pub const HEAD_END: &'static str = "\r\nConnection: close\r\n\r\n";

/// The response to a request for `path` when the statistics render as
/// `body`: the text for `/metrics`, else a 404.
pub open spec fn response_text(path: Seq<char>, body: Seq<char>) -> Seq<char> {
    let (status, b) = if path == "/metrics"@ {
        ("200 OK"@, body)
    } else {
        ("404 Not Found"@, "not found\n"@)
    };
    "HTTP/1.1 "@ + status + HEAD_MID@ + dec(vstd::utf8::encode_utf8(b).len()) + HEAD_END@ + b
}

/// The words of `v` by white space.
fn split_words(v: &Vec<char>) -> (r: Vec<Vec<char>>)
    ensures
        crate::text::views(r@) == tokens(v@),
{
    let mut out: Vec<Vec<char>> = Vec::new();
    let mut cur: Vec<char> = Vec::new();
    let mut i: usize = 0;
    proof {
        assert(v@.take(0) =~= Seq::<char>::empty());
        assert(crate::text::views(out@) =~= Seq::<Seq<char>>::empty());
    }
    while i < v.len()
        invariant
            i <= v.len(),
            cur.len() > 0 ==> i > 0 && !is_ws(v@[i - 1]),
            cur.len() == 0 ==> (i == 0 || is_ws(v@[i - 1])),
            tokens(v@.take(i as int)) == if cur.len() > 0 {
                crate::text::views(out@).push(cur@)
            } else {
                crate::text::views(out@)
            },
        decreases v.len() - i,
    {
        let c = v[i];
        let ghost prev = v@.take(i as int);
        proof {
            assert(v@.take(i + 1).drop_last() =~= prev);
            assert(v@.take(i + 1).last() == c);
            if i > 0 {
                assert(v@.take(i + 1)[i - 1] == v@[i - 1]);
            }
        }
        if is_ws_char(c) {
            if cur.len() > 0 {
                let w = cur;
                cur = Vec::new();
                let ghost before = crate::text::views(out@);
                out.push(w);
                proof {
                    assert(crate::text::views(out@) =~= before.push(w@));
                }
            }
        } else {
            let ghost before_cur = cur@;
            let ghost outs = crate::text::views(out@);
            cur.push(c);
            proof {
                let s1 = v@.take(i + 1);
                if before_cur.len() > 0 {
                    assert(tokens(prev) == outs.push(before_cur));
                    assert(tokens(prev).drop_last() =~= outs);
                    assert(cur@ =~= before_cur.push(c));
                    assert(!is_ws(s1[s1.len() - 2]));
                    assert(tokens(s1) == tokens(prev).drop_last().push(tokens(prev).last().push(c)));
                } else {
                    assert(cur@ =~= seq![c]);
                    assert(tokens(s1) == tokens(prev).push(seq![c]));
                }
            }
        }
        i = i + 1;
    }
    proof {
        assert(v@.take(v.len() as int) =~= v@);
    }
    if cur.len() > 0 {
        let ghost before = crate::text::views(out@);
        out.push(cur);
        proof {
            assert(crate::text::views(out@) =~= before.push(cur@));
        }
    }
    out
}

/// The path a raw request asks for.
pub fn path_of_request(request: &str) -> (r: Vec<char>)
    ensures
        r@ == request_path(request@),
{
    let v = chars_of(request);
    let first = before_first_vec(&v, '\n');
    let words = split_words(&first);
    if words.len() >= 2 {
        let mut r: Vec<char> = Vec::new();
        push_all(&mut r, &words[1]);
        proof {
            assert(crate::text::views(words@)[1] == words@[1]@);
        }
        r
    } else {
        chars_of("/")
    }
}

/// The full response of the statistics endpoint to a raw request.
pub fn http_response(request: &str, metrics: &Metrics) -> (r: String)
    requires
        metrics.wf(),
    ensures
        r@ == response_text(request_path(request@), render_text(metrics@)),
{
    let path = path_of_request(request);
    let is_metrics = crate::text::eq_str(&path, "/metrics");
    let body: String = if is_metrics {
        render(metrics)
    } else {
        string_of(&chars_of("not found\n"))
    };
    let status: &str = if is_metrics {
        "200 OK"
    } else {
        "404 Not Found"
    };
    let len = body.as_str().as_bytes().len();
    let mut out: Vec<char> = Vec::new();
    push_str(&mut out, "HTTP/1.1 ");
    push_str(&mut out, status);
    push_str(&mut out, HEAD_MID);
    let d = u64_dec(len as u64);
    push_all(&mut out, &d);
    push_str(&mut out, HEAD_END);
    push_str(&mut out, body.as_str());
    proof {
        let ghost p = request_path(request@);
        assert(is_metrics == (p == "/metrics"@));
        assert(len == vstd::utf8::encode_utf8(body@).len());
    }
    string_of(&out)
}

} // verus!
