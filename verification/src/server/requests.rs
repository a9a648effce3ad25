//! Checks and derived values of API requests: required fields, paging,
//! the read filter, search patterns and the next page.

use vstd::prelude::*;

use super::errors::ServerError;
use super::models::{EntryListResponse, EntrySummary};
use crate::text::{chars_of, eq_str, push_str, string_of, trim, trim_str};

verus! {

/// `value` trimmed; when that is empty, a bad request with `message`.
pub fn require_trimmed(value: &str, message: &str) -> (r: Result<String, ServerError>)
    ensures
        trim(value@).len() == 0 ==> (r matches Err(e) && e.status_spec() == 400 && e.message_spec() == message@),
        trim(value@).len() > 0 ==> (r matches Ok(s) && s@ == trim(value@)),
{
    let t = trim_str(value);
    if t.len() == 0 {
        return Err(ServerError::new(400, message));
    }
    Ok(string_of(&t))
}

/// A username and password, both trimmed and non-empty.
pub fn credentials(username: &str, password: &str) -> (r: Result<(String, String), ServerError>)
    ensures
        (trim(username@).len() == 0 || trim(password@).len() == 0) ==> (r matches Err(e)
            && e.status_spec() == 400 && e.message_spec() == "username and password required"@),
        (trim(username@).len() > 0 && trim(password@).len() > 0) ==> (r matches Ok(p) && p.0@
            == trim(username@) && p.1@ == trim(password@)),
{
    let u = trim_str(username);
    let p = trim_str(password);
    if u.len() == 0 || p.len() == 0 {
        return Err(ServerError::new(400, "username and password required"));
    }
    Ok((string_of(&u), string_of(&p)))
}

/// The page size: 50 by default, at most 200.
pub fn page_limit(limit: Option<u32>) -> (r: i64)
    ensures
        r == match limit {
            Some(l) => if l < 200 {
                l as int
            } else {
                200
            },
            None => 50,
        },
{
    let l = match limit {
        Some(l) => l,
        None => 50,
    };
    if l < 200 {
        l as i64
    } else {
        200
    }
}

/// The page offset: 0 by default.
pub fn page_offset(offset: Option<u32>) -> (r: i64)
    ensures
        r == match offset {
            Some(o) => o as int,
            None => 0,
        },
{
    match offset {
        Some(o) => o as i64,
        None => 0,
    }
}

/// Which entries a listing shows.
#[derive(Debug, Clone, Copy, PartialEq, Eq, Structural)]
pub enum ReadFilter {
    Read,
    Unread,
    All,
}

/// The read filter of a listing: `read`, `unread` or `all` exactly; any
/// other value is a bad request.
pub fn parse_read_filter(raw: Option<&str>) -> (r: Result<Option<ReadFilter>, ServerError>)
    ensures
        match raw {
            None => r == Ok::<Option<ReadFilter>, ServerError>(None),
            Some(s) => if s@ == "read"@ {
                r == Ok::<Option<ReadFilter>, ServerError>(Some(ReadFilter::Read))
            } else if s@ == "unread"@ {
                r == Ok::<Option<ReadFilter>, ServerError>(Some(ReadFilter::Unread))
            } else if s@ == "all"@ {
                r == Ok::<Option<ReadFilter>, ServerError>(Some(ReadFilter::All))
            } else {
                r matches Err(e) && e.status_spec() == 400 && e.message_spec() == "invalid read filter: "@ + s@
            },
        },
{
    let s = match raw {
        None => return Ok(None),
        Some(s) => s,
    };
    let v = chars_of(s);
    if eq_str(&v, "read") {
        Ok(Some(ReadFilter::Read))
    } else if eq_str(&v, "unread") {
        Ok(Some(ReadFilter::Unread))
    } else if eq_str(&v, "all") {
        Ok(Some(ReadFilter::All))
    } else {
        let mut m: Vec<char> = Vec::new();
        push_str(&mut m, "invalid read filter: ");
        push_str(&mut m, s);
        let ms = string_of(&m);
        Err(ServerError::new(400, ms.as_str()))
    }
}

/// The `LIKE` pattern of a search: the query between '%'.
pub fn search_pattern(q: &str) -> (r: String)
    ensures
        r@ == seq!['%'] + q@ + seq!['%'],
{
    let mut v: Vec<char> = Vec::new();
    v.push('%');
    push_str(&mut v, q);
    v.push('%');
    string_of(&v)
}

/// A batch must name at least one item.
pub fn require_item_ids(item_ids: &Vec<i64>) -> (r: Result<(), ServerError>)
    ensures
        item_ids.len() == 0 ==> (r matches Err(e) && e.status_spec() == 400 && e.message_spec() == "item_ids required"@),
        item_ids.len() > 0 ==> r is Ok,
{
    if item_ids.len() == 0 {
        return Err(ServerError::new(400, "item_ids required"));
    }
    Ok(())
}

/// The fetcher's schema, `fetcher` unless configured.
pub fn fetcher_schema_or_default(schema: Option<&str>) -> (r: &str)
    ensures
        r@ == match schema {
            Some(s) => s@,
            None => "fetcher"@,
        },
{
    match schema {
        Some(s) => s,
        None => "fetcher",
    }
}

pub open spec fn max_id(rows: Seq<EntrySummary>) -> Option<i64>
    decreases rows.len(),
{
    if rows.len() == 0 {
        None
    } else {
        match max_id(rows.drop_last()) {
            None => Some(rows.last().id),
            Some(m) => Some(if m < rows.last().id {
                rows.last().id
            } else {
                m
            }),
        }
    }
}

/// A page of entries: the cursor is the largest id on the page, the next
/// offset follows the page; both are absent for an empty page.
pub fn entry_page(rows: Vec<EntrySummary>, offset: i64) -> (r: EntryListResponse)
    requires
        0 <= offset,
        offset + rows.len() <= i64::MAX,
    ensures
        r.next_cursor == max_id(rows@),
        r.next_offset == (if rows.len() == 0 {
            None
        } else {
            Some((offset + rows.len()) as i64)
        }),
        r.items@ == rows@,
        r.since is None,
{
    let mut cursor: Option<i64> = None;
    let mut i: usize = 0;
    proof {
        assert(rows@.take(0) =~= Seq::<EntrySummary>::empty());
    }
    while i < rows.len()
        invariant
            i <= rows.len(),
            cursor == max_id(rows@.take(i as int)),
        decreases rows.len() - i,
    {
        proof {
            assert(rows@.take(i + 1).drop_last() =~= rows@.take(i as int));
        }
        let id = rows[i].id;
        cursor = match cursor {
            None => Some(id),
            Some(m) => Some(if m < id {
                id
            } else {
                m
            }),
        };
        i = i + 1;
    }
    proof {
        assert(rows@.take(rows.len() as int) =~= rows@);
    }
    let next_offset = if rows.len() == 0 {
        None
    } else {
        Some(offset + rows.len() as i64)
    };
    EntryListResponse { items: rows, next_cursor: cursor, next_offset, since: None }
}

/// The cursor of a non-empty page is the id of one of its entries, and no
/// entry on the page has a larger id.
pub proof fn lemma_max_id_is_max(rows: Seq<EntrySummary>)
    ensures
        rows.len() == 0 <==> max_id(rows) is None,
        max_id(rows) matches Some(m) ==> (exists|i: int| 0 <= i < rows.len() && rows[i].id == m)
            && (forall|i: int| 0 <= i < rows.len() ==> rows[i].id <= m),
    decreases rows.len(),
{
    if rows.len() > 0 {
        let p = rows.drop_last();
        lemma_max_id_is_max(p);
        match max_id(p) {
            None => {
                assert(rows[rows.len() - 1].id == rows.last().id);
            },
            Some(m) => {
                let j = choose|i: int| 0 <= i < p.len() && p[i].id == m;
                assert(rows[j] == p[j]);
                assert forall|i: int| 0 <= i < rows.len() implies rows[i].id <= max_id(rows)->Some_0 by {
                    if i < p.len() {
                        assert(rows[i] == p[i]);
                    }
                }
                if m < rows.last().id {
                    assert(rows[rows.len() - 1].id == rows.last().id);
                }
            },
        }
    }
}

} // verus!
