//! Feed documents: what a parsed RSS, Atom or JSON feed holds, and the
//! metadata and items the poller keeps of it.

use vstd::prelude::*;

use crate::config::error::{copy_opt_str, copy_str, or_opt, os, strs};

verus! {

#[verifier::external_type_specification]
#[verifier::external_body]
pub struct ExFeedEntry(feed_rs::model::Entry);

/// Feed-level metadata.
#[derive(Debug, Clone)]
pub struct FeedMetadata {
    pub title: Option<String>,
    pub link: Option<String>,
    pub description: Option<String>,
    pub language: Option<String>,
    pub updated_at_ms: Option<i64>,
}

/// One item of a feed.
#[derive(Debug, Clone)]
pub struct FeedItem {
    pub title: Option<String>,
    pub link: Option<String>,
    pub guid: Option<String>,
    pub published_at_ms: Option<i64>,
    pub category: Option<String>,
    pub description: Option<String>,
    pub summary: Option<String>,
}

/// A feed's metadata and items.
#[derive(Debug, Clone)]
pub struct ParsedFeed {
    pub metadata: FeedMetadata,
    pub items: Vec<FeedItem>,
}

/// The feed-level fields of a parsed document, as text.
#[derive(Debug)]
pub struct FeedHead {
    pub title: Option<String>,
    pub links: Vec<String>,
    pub description: Option<String>,
    pub language: Option<String>,
    pub updated_ms: Option<i64>,
}

/// The fields of one entry of a parsed document, as text.
#[derive(Debug)]
pub struct FeedEntryDoc {
    pub title: Option<String>,
    pub links: Vec<String>,
    pub id: String,
    pub published_ms: Option<i64>,
    pub updated_ms: Option<i64>,
    pub categories: Vec<String>,
    pub summary: Option<String>,
    pub content: Option<String>,
}

/// The first of a list, if any.
pub open spec fn first<T>(v: Seq<T>) -> Option<T> {
    if v.len() > 0 {
        Some(v[0])
    } else {
        None
    }
}

/// `it` is the item kept of entry `e`: the first link and category, the
/// entry id as guid, publication time falling back to update time, content
/// (else summary) as description, summary (else content) as summary.
pub open spec fn item_from(it: FeedItem, e: FeedEntryDoc) -> bool {
    &&& os(it.title) == os(e.title)
    &&& os(it.link) == first(strs(e.links@))
    &&& os(it.guid) == Some(e.id@)
    &&& it.published_at_ms == or_opt(e.published_ms, e.updated_ms)
    &&& os(it.category) == first(strs(e.categories@))
    &&& os(it.description) == or_opt(os(e.content), os(e.summary))
    &&& os(it.summary) == or_opt(os(e.summary), os(e.content))
}

/// The feed-level fields of a document, as the contracts see them.
pub struct FeedHeadView {
    pub title: Option<Seq<char>>,
    pub links: Seq<Seq<char>>,
    pub description: Option<Seq<char>>,
    pub language: Option<Seq<char>>,
    pub updated_ms: Option<i64>,
}

pub open spec fn head_view(h: FeedHead) -> FeedHeadView {
    FeedHeadView {
        title: os(h.title),
        links: strs(h.links@),
        description: os(h.description),
        language: os(h.language),
        updated_ms: h.updated_ms,
    }
}

/// `m` is the metadata kept of the feed-level fields `h`.
pub open spec fn metadata_from(m: FeedMetadata, h: FeedHeadView) -> bool {
    &&& os(m.title) == h.title
    &&& os(m.link) == first(h.links)
    &&& os(m.description) == h.description
    &&& os(m.language) == h.language
    &&& m.updated_at_ms == h.updated_ms
}

/// The fields of one entry of a document, as text; `id` is `None` where
/// the parser draws a random id (an entry with neither id nor link).
pub struct FeedEntryView {
    pub title: Option<Seq<char>>,
    pub links: Seq<Seq<char>>,
    pub id: Option<Seq<char>>,
    pub published_ms: Option<i64>,
    pub updated_ms: Option<i64>,
    pub categories: Seq<Seq<char>>,
    pub summary: Option<Seq<char>>,
    pub content: Option<Seq<char>>,
}

/// `d` holds the fields of entry `v`: all of them, the id where the bytes
/// decide it.
pub open spec fn entry_from(d: FeedEntryDoc, v: FeedEntryView) -> bool {
    &&& os(d.title) == v.title
    &&& strs(d.links@) == v.links
    &&& (v.id matches Some(x) ==> d.id@ == x)
    &&& d.published_ms == v.published_ms
    &&& d.updated_ms == v.updated_ms
    &&& strs(d.categories@) == v.categories
    &&& os(d.summary) == v.summary
    &&& os(d.content) == v.content
}

/// What `feed_rs::parser::parse` reads of a document: its feed-level fields
/// and its entries (timestamps as epoch milliseconds); `None` when it
/// refuses the bytes.
pub uninterp spec fn feed_outline(bytes: Seq<u8>) -> Option<(FeedHeadView, Seq<FeedEntryView>)>;

/// The entries of a parsed document, beside the bytes they were read from.
pub struct FeedDoc {
    entries: Vec<feed_rs::model::Entry>,
    bytes: Vec<u8>,
}

impl FeedDoc {
    pub closed spec fn source(&self) -> Seq<u8> {
        self.bytes@
    }

    pub closed spec fn entry_count(&self) -> nat {
        self.entries@.len()
    }

    fn len(&self) -> (r: usize)
        ensures
            r == self.entry_count(),
    {
        self.entries.len()
    }
}

/// Calls `feed_rs::parser::parse` on the bytes and keeps the feed-level
/// fields as text (timestamps as epoch milliseconds) and the entries beside
/// the bytes. An error's text begins with `feed parse error: `.
#[verifier::external_body]
fn read_feed(bytes: &[u8]) -> (r: Result<(FeedHead, FeedDoc), String>)
    ensures
        match feed_outline(bytes@) {
            None => r matches Err(m) && "feed parse error: "@.is_prefix_of(m@),
            Some(o) => r matches Ok(x) && head_view(x.0) == o.0 && x.1.source() == bytes@ && x.1.entry_count()
                == o.1.len(),
        },
{
    let f = feed_rs::parser::parse(bytes).map_err(|e| format!("feed parse error: {e}"))?;
    let head = FeedHead {
        title: f.title.map(|t| t.content),
        links: f.links.into_iter().map(|l| l.href).collect(),
        description: f.description.map(|d| d.content),
        language: f.language,
        updated_ms: f.updated.map(|d| d.timestamp_millis()),
    };
    Ok((head, FeedDoc { entries: f.entries, bytes: bytes.to_vec() }))
}

/// The fields of entry `i` as text, its timestamps as epoch milliseconds
/// (`DateTime::timestamp_millis`).
#[verifier::external_body]
fn entry_doc(doc: &FeedDoc, i: usize) -> (r: FeedEntryDoc)
    requires
        i < doc.entry_count(),
    ensures
        match feed_outline(doc.source()) {
            Some(o) => i < o.1.len() ==> entry_from(r, o.1[i as int]),
            None => true,
        },
{
    let e = &doc.entries[i];
    FeedEntryDoc {
        title: e.title.as_ref().map(|t| t.content.clone()),
        links: e.links.iter().map(|l| l.href.clone()).collect(),
        id: e.id.clone(),
        published_ms: e.published.map(|d| d.timestamp_millis()),
        updated_ms: e.updated.map(|d| d.timestamp_millis()),
        categories: e.categories.iter().map(|c| c.term.clone()).collect(),
        summary: e.summary.as_ref().map(|s| s.content.clone()),
        content: e.content.as_ref().and_then(|c| c.body.clone()),
    }
}

/// `it` is the item kept of entry `v`: as `item_from` says, with the entry
/// id as guid where the bytes decide it and some guid where they do not.
pub open spec fn item_from_view(it: FeedItem, v: FeedEntryView) -> bool {
    &&& os(it.title) == v.title
    &&& os(it.link) == first(v.links)
    &&& match v.id {
        Some(x) => os(it.guid) == Some(x),
        None => it.guid is Some,
    }
    &&& it.published_at_ms == or_opt(v.published_ms, v.updated_ms)
    &&& os(it.category) == first(v.categories)
    &&& os(it.description) == or_opt(v.content, v.summary)
    &&& os(it.summary) == or_opt(v.summary, v.content)
}

fn first_of(v: &Vec<String>) -> (r: Option<String>)
    ensures
        os(r) == first(strs(v@)),
{
    if v.len() > 0 {
        Some(copy_str(&v[0]))
    } else {
        None
    }
}

fn or_text(a: &Option<String>, b: &Option<String>) -> (r: Option<String>)
    ensures
        os(r) == or_opt(os(*a), os(*b)),
{
    match a {
        Some(_) => copy_opt_str(a),
        None => copy_opt_str(b),
    }
}

/// The item kept of one entry.
pub fn item_of(e: FeedEntryDoc) -> (it: FeedItem)
    ensures
        item_from(it, e),
{
    let link = first_of(&e.links);
    let category = first_of(&e.categories);
    let description = or_text(&e.content, &e.summary);
    let summary = or_text(&e.summary, &e.content);
    let published_at_ms = match e.published_ms {
        Some(p) => Some(p),
        None => e.updated_ms,
    };
    FeedItem {
        title: e.title,
        link,
        guid: Some(e.id),
        published_at_ms,
        category,
        description,
        summary,
    }
}

/// An item's time is its entry's publication time; the update time counts
/// only for an entry with no publication time.
pub proof fn lemma_item_time_prefers_publication(it: FeedItem, e: FeedEntryDoc)
    requires
        item_from(it, e),
    ensures
        e.published_ms is Some ==> it.published_at_ms == e.published_ms,
        e.published_ms is None ==> it.published_at_ms == e.updated_ms,
{
}

/// An item keeps its entry's title, takes its first link and first
/// category, carries the entry id as guid, describes it by its content
/// (its summary when it has none) and summarises it by its summary (its
/// content when it has none).
pub proof fn lemma_item_reads_entry(it: FeedItem, e: FeedEntryDoc)
    requires
        item_from(it, e),
    ensures
        os(it.title) == os(e.title),
        e.links.len() > 0 ==> (it.link matches Some(l) && l@ == e.links@[0]@),
        e.links.len() == 0 ==> it.link is None,
        it.guid matches Some(g) && g@ == e.id@,
        e.categories.len() > 0 ==> (it.category matches Some(c) && c@ == e.categories@[0]@),
        e.categories.len() == 0 ==> it.category is None,
        e.content is Some ==> os(it.description) == os(e.content),
        e.content is None ==> os(it.description) == os(e.summary),
        e.summary is Some ==> os(it.summary) == os(e.summary),
        e.summary is None ==> os(it.summary) == os(e.content),
{
}

/// The same for the items of a parsed document, against its entries.
pub proof fn lemma_parsed_item_time_prefers_publication(it: FeedItem, v: FeedEntryView)
    requires
        item_from_view(it, v),
    ensures
        v.published_ms is Some ==> it.published_at_ms == v.published_ms,
        v.published_ms is None ==> it.published_at_ms == v.updated_ms,
{
}

/// The metadata and items kept of a parsed document, items in entry order.
pub fn feed_from_document(head: FeedHead, entries: Vec<FeedEntryDoc>) -> (p: ParsedFeed)
    ensures
        metadata_from(p.metadata, head_view(head)),
        p.items.len() == entries.len(),
        forall|i: int| 0 <= i < entries.len() ==> item_from(#[trigger] p.items@[i], entries@[i]),
{
    let metadata = FeedMetadata {
        title: copy_opt_str(&head.title),
        link: first_of(&head.links),
        description: copy_opt_str(&head.description),
        language: copy_opt_str(&head.language),
        updated_at_ms: head.updated_ms,
    };
    let ghost es = entries@;
    let mut rest = entries;
    let mut items: Vec<FeedItem> = Vec::new();
    while rest.len() > 0
        invariant
            items.len() + rest.len() == es.len(),
            rest@ == es.skip(items.len() as int),
            forall|i: int| 0 <= i < items.len() ==> item_from(#[trigger] items@[i], es[i]),
        decreases rest.len(),
    {
        let ghost before = rest@;
        let ghost k = items.len() as int;
        let e = rest.remove(0);
        proof {
            assert(before[0] == es[k]);
            assert(rest@ =~= es.skip(k + 1));
        }
        let it = item_of(e);
        items.push(it);
    }
    ParsedFeed { metadata, items }
}

/// Parses RSS, Atom or JSON feed bytes into metadata and one item per
/// entry, in entry order.
pub fn parse(bytes: &[u8]) -> (r: Result<ParsedFeed, String>)
    ensures
        match feed_outline(bytes@) {
            None => r matches Err(m) && "feed parse error: "@.is_prefix_of(m@),
            Some(o) => r matches Ok(p) && metadata_from(p.metadata, o.0) && p.items.len() == o.1.len() && forall|i: int|
                0 <= i < p.items.len() ==> item_from_view(#[trigger] p.items@[i], o.1[i]),
        },
{
    let (head, doc) = match read_feed(bytes) {
        Ok(x) => x,
        Err(e) => return Err(e),
    };
    let ghost o = feed_outline(bytes@)->Some_0;
    let n = doc.len();
    let mut docs: Vec<FeedEntryDoc> = Vec::new();
    let mut i: usize = 0;
    while i < n
        invariant
            n == doc.entry_count(),
            feed_outline(doc.source()) == Some(o),
            n == o.1.len(),
            i <= n,
            docs.len() == i,
            forall|k: int| 0 <= k < i ==> entry_from(#[trigger] docs@[k], o.1[k]),
        decreases n - i,
    {
        docs.push(entry_doc(&doc, i));
        i = i + 1;
    }
    let p = feed_from_document(head, docs);
    proof {
        assert forall|k: int| 0 <= k < p.items.len() implies item_from_view(#[trigger] p.items@[k], o.1[k]) by {
            assert(item_from(p.items@[k], docs@[k]));
            assert(entry_from(docs@[k], o.1[k]));
        }
    }
    Ok(p)
}

} // verus!
