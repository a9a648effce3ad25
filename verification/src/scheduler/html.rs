//! An HTML page and CSS selectors, read through `scraper`: how many
//! elements a selector matches, and the attributes and text of a match or
//! of the first element inside it that another selector matches.

use vstd::prelude::*;

use crate::config::error::{os, strs};

verus! {

#[verifier::external_type_specification]
#[verifier::external_body]
pub struct ExHtml(scraper::Html);

#[verifier::external_type_specification]
#[verifier::external_body]
pub struct ExSelector(scraper::Selector);

/// A page parsed from `body` (read as UTF-8, invalid sequences replaced).
pub struct HtmlDoc {
    html: scraper::Html,
    body: Vec<u8>,
}

impl HtmlDoc {
    /// The bytes the page was parsed from.
    pub closed spec fn source(&self) -> Seq<u8> {
        self.body@
    }
}

/// A CSS selector and the text it was parsed from.
pub struct CssQuery {
    sel: scraper::Selector,
    text: String,
}

impl CssQuery {
    pub closed spec fn text(&self) -> Seq<char> {
        self.text@
    }
}

/// `scraper::Selector::parse` accepts `raw`.
pub uninterp spec fn css_valid(raw: Seq<char>) -> bool;

/// How many elements of the page `body` the selector `sel` matches.
pub uninterp spec fn css_count(body: Seq<u8>, sel: Seq<char>) -> nat;

/// Attribute `name` of the `i`-th element `sel` matches in `body`.
pub uninterp spec fn css_attr(body: Seq<u8>, sel: Seq<char>, i: nat, name: Seq<char>) -> Option<Seq<char>>;

/// The text nodes under the `i`-th element `sel` matches, in document order.
pub uninterp spec fn css_text(body: Seq<u8>, sel: Seq<char>, i: nat) -> Seq<Seq<char>>;

/// Attribute `name` of the first element that `inner` matches inside the
/// `i`-th match of `sel`.
pub uninterp spec fn css_inner_attr(
    body: Seq<u8>,
    sel: Seq<char>,
    i: nat,
    inner: Seq<char>,
    name: Seq<char>,
) -> Option<Seq<char>>;

/// The text nodes under the first element that `inner` matches inside the
/// `i`-th match of `sel`; `None` when there is no such element.
pub uninterp spec fn css_inner_text(body: Seq<u8>, sel: Seq<char>, i: nat, inner: Seq<char>) -> Option<
    Seq<Seq<char>>,
>;

/// Calls `Html::parse_document` on the body read as UTF-8
/// (`String::from_utf8_lossy`) and keeps the body beside the page.
#[verifier::external_body]
pub(crate) fn parse_html(body: &[u8]) -> (d: HtmlDoc)
    ensures
        d.source() == body@,
{
    let html = scraper::Html::parse_document(&String::from_utf8_lossy(body));
    HtmlDoc { html, body: body.to_vec() }
}

/// Calls `Selector::parse`; `None` when it fails.
#[verifier::external_body]
pub(crate) fn parse_selector(raw: &str) -> (r: Option<CssQuery>)
    ensures
        r is Some <==> css_valid(raw@),
        r matches Some(q) ==> q.text() == raw@,
{
    scraper::Selector::parse(raw).ok().map(|sel| CssQuery { sel, text: raw.to_string() })
}

/// Counts the matches of `Html::select`.
#[verifier::external_body]
pub(crate) fn match_count(d: &HtmlDoc, q: &CssQuery) -> (r: usize)
    ensures
        r == css_count(d.source(), q.text()),
{
    d.html.select(&q.sel).count()
}

/// `ElementRef::attr` of the `i`-th match of `Html::select`.
#[verifier::external_body]
pub(crate) fn match_attr(d: &HtmlDoc, q: &CssQuery, i: usize, name: &str) -> (r: Option<String>)
    ensures
        os(r) == css_attr(d.source(), q.text(), i as nat, name@),
{
    d.html.select(&q.sel).nth(i).and_then(|n| n.attr(name)).map(|s| s.to_string())
}

/// `ElementRef::text` of the `i`-th match of `Html::select`.
#[verifier::external_body]
pub(crate) fn match_text(d: &HtmlDoc, q: &CssQuery, i: usize) -> (r: Vec<String>)
    ensures
        strs(r@) == css_text(d.source(), q.text(), i as nat),
{
    d.html.select(&q.sel).nth(i).map(|n| n.text().map(|t| t.to_string()).collect()).unwrap_or_default()
}

/// `ElementRef::attr` of the first `ElementRef::select` match of `inner`
/// inside the `i`-th match of `q`.
#[verifier::external_body]
pub(crate) fn inner_attr(d: &HtmlDoc, q: &CssQuery, i: usize, inner: &CssQuery, name: &str) -> (r: Option<String>)
    ensures
        os(r) == css_inner_attr(d.source(), q.text(), i as nat, inner.text(), name@),
{
    let n = d.html.select(&q.sel).nth(i).and_then(|n| n.select(&inner.sel).next());
    n.and_then(|n| n.attr(name)).map(|s| s.to_string())
}

/// `ElementRef::text` of the first `ElementRef::select` match of `inner`
/// inside the `i`-th match of `q`.
#[verifier::external_body]
pub(crate) fn inner_text(d: &HtmlDoc, q: &CssQuery, i: usize, inner: &CssQuery) -> (r: Option<Vec<String>>)
    ensures
        match r {
            Some(v) => css_inner_text(d.source(), q.text(), i as nat, inner.text()) == Some(strs(v@)),
            None => css_inner_text(d.source(), q.text(), i as nat, inner.text()) is None,
        },
{
    let n = d.html.select(&q.sel).nth(i).and_then(|n| n.select(&inner.sel).next());
    n.map(|n| n.text().map(|t| t.to_string()).collect())
}

} // verus!
