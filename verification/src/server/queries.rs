//! The entry listing and search queries: SQL text and bound values, in the
//! order a query builder takes them.

use vstd::prelude::*;

use super::config::SqlDialect;
use super::db::{quote_ident, quoted};
use super::errors::ServerError;
use super::models::{EntryListQuery, SearchQuery};
use super::requests::{
    fetcher_schema_or_default, page_limit, page_offset, parse_read_filter, search_pattern, ReadFilter,
};
use crate::text::{push_str, string_of, trim, trim_str};

verus! {

/// A piece of a query: SQL text, or a value bound at that place.
#[derive(Debug, PartialEq, Eq)]
pub enum QueryPart {
    Sql(String),
    Int(i64),
    Text(String),
}

/// A query piece as the contracts see it.
pub enum PartView {
    Sql(Seq<char>),
    Int(i64),
    Text(Seq<char>),
}

pub open spec fn part_view(p: QueryPart) -> PartView {
    match p {
        QueryPart::Sql(s) => PartView::Sql(s@),
        QueryPart::Int(n) => PartView::Int(n),
        QueryPart::Text(s) => PartView::Text(s@),
    }
}

pub open spec fn parts_view(ps: Seq<QueryPart>) -> Seq<PartView> {
    ps.map_values(|p: QueryPart| part_view(p))
}

/// The selected columns and joined read state, up to the bound user id.
pub open spec fn entries_head(dialect: SqlDialect, schema: Seq<char>) -> Seq<char> {
    match dialect {
        SqlDialect::Postgres => "SELECT fi.id, fi.feed_id, fi.title, fi.link, CAST(EXTRACT(EPOCH FROM fi.published_at) * 1000 AS BIGINT) AS published_at_ms, (es.read_at IS NOT NULL) AS is_read FROM "@
            + quoted(schema)
            + ".feed_items fi LEFT JOIN entry_states es ON es.item_id = fi.id AND es.user_id = "@,
        SqlDialect::Sqlite => "SELECT fi.id, fi.feed_id, fi.title, fi.link, fi.published_at_ms, (es.read_at IS NOT NULL) AS is_read FROM feed_items fi LEFT JOIN entry_states es ON es.item_id = fi.id AND es.user_id = "@,
    }
}

pub open spec fn read_clause(read: Option<ReadFilter>) -> Seq<PartView> {
    match read {
        Some(ReadFilter::Read) => seq![PartView::Sql(" AND es.read_at IS NOT NULL"@)],
        Some(ReadFilter::Unread) => seq![PartView::Sql(" AND es.read_at IS NULL"@)],
        _ => Seq::empty(),
    }
}

pub open spec fn feed_clause(feed_id: Option<Seq<char>>) -> Seq<PartView> {
    match feed_id {
        Some(f) => seq![PartView::Sql(" AND fi.feed_id = "@), PartView::Text(f)],
        None => Seq::empty(),
    }
}

pub open spec fn since_clause(since: Option<i64>) -> Seq<PartView> {
    match since {
        Some(s) => seq![PartView::Sql(" AND fi.id > "@), PartView::Int(s)],
        None => Seq::empty(),
    }
}

pub open spec fn page_clause(limit: i64, offset: i64) -> Seq<PartView> {
    seq![
        PartView::Sql(" ORDER BY fi.id DESC LIMIT "@),
        PartView::Int(limit),
        PartView::Sql(" OFFSET "@),
        PartView::Int(offset),
    ]
}

/// Title, summary or description matches the pattern: `ILIKE` on Postgres,
/// `LIKE` over lower-cased text on SQLite.
pub open spec fn match_clause(dialect: SqlDialect, pattern: Seq<char>) -> Seq<PartView> {
    match dialect {
        SqlDialect::Postgres => seq![
            PartView::Sql(" WHERE ("@),
            PartView::Sql("fi.title ILIKE "@),
            PartView::Text(pattern),
            PartView::Sql(" OR fi.summary ILIKE "@),
            PartView::Text(pattern),
            PartView::Sql(" OR fi.description ILIKE "@),
            PartView::Text(pattern),
            PartView::Sql(")"@),
        ],
        SqlDialect::Sqlite => seq![
            PartView::Sql(" WHERE ("@),
            PartView::Sql("lower(fi.title) LIKE lower("@),
            PartView::Text(pattern),
            PartView::Sql(") OR lower(fi.summary) LIKE lower("@),
            PartView::Text(pattern),
            PartView::Sql(") OR lower(fi.description) LIKE lower("@),
            PartView::Text(pattern),
            PartView::Sql(")"@),
        ],
    }
}

pub open spec fn opt_view(o: Option<String>) -> Option<Seq<char>> {
    match o {
        Some(s) => Some(s@),
        None => None,
    }
}

pub open spec fn schema_of(schema: Option<&str>) -> Seq<char> {
    match schema {
        Some(s) => s@,
        None => "fetcher"@,
    }
}

pub open spec fn limit_of(limit: Option<u32>) -> i64 {
    match limit {
        Some(l) => if l < 200 {
            l as i64
        } else {
            200
        },
        None => 50,
    }
}

pub open spec fn offset_of(offset: Option<u32>) -> i64 {
    match offset {
        Some(o) => o as i64,
        None => 0,
    }
}

/// The read filter of a request as `parse_read_filter` states it.
pub open spec fn read_of(raw: Option<String>) -> Result<Option<ReadFilter>, Seq<char>> {
    match raw {
        None => Ok(None),
        Some(s) => if s@ == "read"@ {
            Ok(Some(ReadFilter::Read))
        } else if s@ == "unread"@ {
            Ok(Some(ReadFilter::Unread))
        } else if s@ == "all"@ {
            Ok(Some(ReadFilter::All))
        } else {
            Err("invalid read filter: "@ + s@)
        },
    }
}

/// The parts of an entry listing.
pub open spec fn list_parts(
    dialect: SqlDialect,
    schema: Seq<char>,
    user_id: i64,
    read: Option<ReadFilter>,
    feed_id: Option<Seq<char>>,
    since: Option<i64>,
    limit: i64,
    offset: i64,
) -> Seq<PartView> {
    seq![PartView::Sql(entries_head(dialect, schema)), PartView::Int(user_id), PartView::Sql(" WHERE 1=1"@)]
        + read_clause(read) + feed_clause(feed_id) + since_clause(since) + page_clause(limit, offset)
}

/// The parts of an entry search.
pub open spec fn search_parts(
    dialect: SqlDialect,
    schema: Seq<char>,
    user_id: i64,
    pattern: Seq<char>,
    read: Option<ReadFilter>,
    feed_id: Option<Seq<char>>,
    limit: i64,
    offset: i64,
) -> Seq<PartView> {
    seq![PartView::Sql(entries_head(dialect, schema)), PartView::Int(user_id)] + match_clause(dialect, pattern)
        + read_clause(read) + feed_clause(feed_id) + page_clause(limit, offset)
}

fn sql(s: &str) -> (p: QueryPart)
    ensures
        part_view(p) == PartView::Sql(s@),
{
    QueryPart::Sql(s.to_owned())
}

fn text(s: &str) -> (p: QueryPart)
    ensures
        part_view(p) == PartView::Text(s@),
{
    QueryPart::Text(s.to_owned())
}

fn head_part(dialect: SqlDialect, schema: &str) -> (p: QueryPart)
    ensures
        part_view(p) == PartView::Sql(entries_head(dialect, schema@)),
{
    match dialect {
        SqlDialect::Postgres => {
            let mut v: Vec<char> = Vec::new();
            push_str(
                &mut v,
                "SELECT fi.id, fi.feed_id, fi.title, fi.link, CAST(EXTRACT(EPOCH FROM fi.published_at) * 1000 AS BIGINT) AS published_at_ms, (es.read_at IS NOT NULL) AS is_read FROM ",
            );
            let q = quote_ident(schema);
            push_str(&mut v, q.as_str());
            push_str(&mut v, ".feed_items fi LEFT JOIN entry_states es ON es.item_id = fi.id AND es.user_id = ");
            QueryPart::Sql(string_of(&v))
        },
        SqlDialect::Sqlite => sql(
            "SELECT fi.id, fi.feed_id, fi.title, fi.link, fi.published_at_ms, (es.read_at IS NOT NULL) AS is_read FROM feed_items fi LEFT JOIN entry_states es ON es.item_id = fi.id AND es.user_id = ",
        ),
    }
}

fn push_part(out: &mut Vec<QueryPart>, p: QueryPart)
    ensures
        parts_view(final(out)@) == parts_view(old(out)@).push(part_view(p)),
{
    let ghost before = out@;
    out.push(p);
    proof {
        assert(parts_view(out@) =~= parts_view(before).push(part_view(p)));
    }
}

#[verifier::rlimit(40)]
fn push_filters(
    out: &mut Vec<QueryPart>,
    read: Option<ReadFilter>,
    feed_id: Option<&str>,
    since: Option<i64>,
    limit: i64,
    offset: i64,
)
    ensures
        parts_view(final(out)@) == parts_view(old(out)@) + read_clause(read) + feed_clause(
            match feed_id {
                Some(f) => Some(f@),
                None => None,
            },
        ) + since_clause(since) + page_clause(limit, offset),
{
    let ghost start = parts_view(out@);
    match read {
        Some(ReadFilter::Read) => push_part(out, sql(" AND es.read_at IS NOT NULL")),
        Some(ReadFilter::Unread) => push_part(out, sql(" AND es.read_at IS NULL")),
        _ => {},
    }
    let ghost after_read = parts_view(out@);
    assert(after_read =~= start + read_clause(read));
    match feed_id {
        Some(f) => {
            push_part(out, sql(" AND fi.feed_id = "));
            push_part(out, text(f));
        },
        None => {},
    }
    let ghost fv = match feed_id {
        Some(f) => Some(f@),
        None => None,
    };
    let ghost after_feed = parts_view(out@);
    assert(after_feed =~= after_read + feed_clause(fv));
    match since {
        Some(s) => {
            push_part(out, sql(" AND fi.id > "));
            push_part(out, QueryPart::Int(s));
        },
        None => {},
    }
    let ghost after_since = parts_view(out@);
    assert(after_since =~= after_feed + since_clause(since));
    push_part(out, sql(" ORDER BY fi.id DESC LIMIT "));
    push_part(out, QueryPart::Int(limit));
    push_part(out, sql(" OFFSET "));
    push_part(out, QueryPart::Int(offset));
    assert(parts_view(out@) =~= after_since + page_clause(limit, offset));
}

/// The query of an entry listing for `user_id`: optionally only read or
/// unread entries, one feed's entries, or entries after an id; newest
/// first, paged. An unknown read filter is a bad request.
pub fn entry_list_query(
    dialect: SqlDialect,
    fetcher_schema: Option<&str>,
    user_id: i64,
    query: &EntryListQuery,
) -> (r: Result<Vec<QueryPart>, ServerError>)
    ensures
        match read_of(query.read) {
            Err(m) => r matches Err(e) && e.status_spec() == 400 && e.message_spec() == m,
            Ok(read) => r matches Ok(ps) && parts_view(ps@) == list_parts(
                dialect,
                schema_of(fetcher_schema),
                user_id,
                read,
                opt_view(query.feed_id),
                query.since,
                limit_of(query.limit),
                offset_of(query.offset),
            ),
        },
{
    let limit = page_limit(query.limit);
    let offset = page_offset(query.offset);
    let read = match parse_read_filter(
        match &query.read {
            Some(s) => Some(s.as_str()),
            None => None,
        },
    ) {
        Ok(f) => f,
        Err(e) => return Err(e),
    };
    let schema = fetcher_schema_or_default(fetcher_schema);
    let mut out: Vec<QueryPart> = Vec::new();
    push_part(&mut out, head_part(dialect, schema));
    push_part(&mut out, QueryPart::Int(user_id));
    push_part(&mut out, sql(" WHERE 1=1"));
    push_filters(
        &mut out,
        read,
        match &query.feed_id {
            Some(f) => Some(f.as_str()),
            None => None,
        },
        query.since,
        limit,
        offset,
    );
    Ok(out)
}

fn push_match(out: &mut Vec<QueryPart>, dialect: SqlDialect, pattern: &str)
    ensures
        parts_view(final(out)@) == parts_view(old(out)@) + match_clause(dialect, pattern@),
{
    let ghost start = parts_view(out@);
    push_part(out, sql(" WHERE ("));
    match dialect {
        SqlDialect::Postgres => {
            push_part(out, sql("fi.title ILIKE "));
            push_part(out, text(pattern));
            push_part(out, sql(" OR fi.summary ILIKE "));
            push_part(out, text(pattern));
            push_part(out, sql(" OR fi.description ILIKE "));
            push_part(out, text(pattern));
        },
        SqlDialect::Sqlite => {
            push_part(out, sql("lower(fi.title) LIKE lower("));
            push_part(out, text(pattern));
            push_part(out, sql(") OR lower(fi.summary) LIKE lower("));
            push_part(out, text(pattern));
            push_part(out, sql(") OR lower(fi.description) LIKE lower("));
            push_part(out, text(pattern));
        },
    }
    push_part(out, sql(")"));
    assert(parts_view(out@) =~= start + match_clause(dialect, pattern@));
}

/// The query of an entry search for `user_id`: entries whose title,
/// summary or description holds the trimmed `q`, with the filters and
/// paging of a listing. An empty `q`, then an unknown read filter, is a
/// bad request.
pub fn entry_search_query(
    dialect: SqlDialect,
    fetcher_schema: Option<&str>,
    user_id: i64,
    query: &SearchQuery,
) -> (r: Result<Vec<QueryPart>, ServerError>)
    ensures
        trim(query.q@).len() == 0 ==> (r matches Err(e) && e.status_spec() == 400 && e.message_spec()
            == "q required"@),
        trim(query.q@).len() > 0 ==> match read_of(query.read) {
            Err(m) => r matches Err(e) && e.status_spec() == 400 && e.message_spec() == m,
            Ok(read) => r matches Ok(ps) && parts_view(ps@) == search_parts(
                dialect,
                schema_of(fetcher_schema),
                user_id,
                seq!['%'] + trim(query.q@) + seq!['%'],
                read,
                opt_view(query.feed_id),
                limit_of(query.limit),
                offset_of(query.offset),
            ),
        },
{
    let q = trim_str(query.q.as_str());
    if q.len() == 0 {
        return Err(ServerError::new(400, "q required"));
    }
    let limit = page_limit(query.limit);
    let offset = page_offset(query.offset);
    let qs = string_of(&q);
    let pattern = search_pattern(qs.as_str());
    let read = match parse_read_filter(
        match &query.read {
            Some(s) => Some(s.as_str()),
            None => None,
        },
    ) {
        Ok(f) => f,
        Err(e) => return Err(e),
    };
    let schema = fetcher_schema_or_default(fetcher_schema);
    let mut out: Vec<QueryPart> = Vec::new();
    push_part(&mut out, head_part(dialect, schema));
    push_part(&mut out, QueryPart::Int(user_id));
    push_match(&mut out, dialect, pattern.as_str());
    push_filters(&mut out, read, match &query.feed_id {
        Some(f) => Some(f.as_str()),
        None => None,
    }, None, limit, offset);
    proof {
        let fv = opt_view(query.feed_id);
        assert(parts_view(out@) =~= search_parts(
            dialect,
            schema_of(fetcher_schema),
            user_id,
            pattern@,
            read,
            fv,
            limit,
            offset,
        ));
    }
    Ok(out)
}

} // verus!
