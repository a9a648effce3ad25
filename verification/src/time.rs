//! Time zones and the text of instants (epoch milliseconds) in a zone.

use vstd::prelude::*;

use crate::config::error::{invalid, invalid_error, ConfigError};
use crate::text::{push_str, trim};

verus! {

#[verifier::external_type_specification]
#[verifier::external_body]
pub struct ExTz(chrono_tz::Tz);

/// A time zone of the tz database and the name it was read from.
pub struct TimeZone {
    tz: chrono_tz::Tz,
    name: String,
}

impl TimeZone {
    pub closed spec fn name_spec(&self) -> Seq<char> {
        self.name@
    }

    pub fn name(&self) -> (r: String)
        ensures
            r@ == self.name_spec(),
    {
        self.name.clone()
    }
}

/// `name` is a zone of the tz database (`str::parse::<Tz>` succeeds).
pub uninterp spec fn tz_known(name: Seq<char>) -> bool;

/// `Utc.timestamp_millis_opt(ms)` gives a single instant.
pub uninterp spec fn millis_in_range(ms: i64) -> bool;

/// The instant `ms` in zone `zone`, written with the format
/// `%Y-%m-%d %H:%M:%S%.3f %Z`.
pub uninterp spec fn local_time_text(ms: i64, zone: Seq<char>) -> Seq<char>;

/// The instant `ms` in zone `zone`, in RFC 3339 (`DateTime::to_rfc3339`).
pub uninterp spec fn local_rfc3339(ms: i64, zone: Seq<char>) -> Seq<char>;

/// Calls `str::parse::<chrono_tz::Tz>`.
#[verifier::external_body]
pub(crate) fn parse_timezone(name: &str) -> (r: Option<TimeZone>)
    ensures
        r is Some <==> tz_known(name@),
        r matches Some(z) ==> z.name_spec() == name@,
{
    name.parse::<chrono_tz::Tz>().ok().map(|tz| TimeZone { tz, name: name.to_string() })
}

/// Whether `Utc.timestamp_millis_opt(ms).single()` gives an instant; the
/// epoch itself always does.
#[verifier::external_body]
fn in_range(ms: i64) -> (r: bool)
    ensures
        r == millis_in_range(ms),
        ms == 0 ==> r,
{
    chrono::TimeZone::timestamp_millis_opt(&chrono::Utc, ms).single().is_some()
}

/// The instant in the zone, formatted (`DateTime::with_timezone`, `format`).
#[verifier::external_body]
fn format_local(ms: i64, zone: &TimeZone) -> (r: String)
    requires
        millis_in_range(ms),
    ensures
        r@ == local_time_text(ms, zone.name_spec()),
{
    let utc = chrono::TimeZone::timestamp_millis_opt(&chrono::Utc, ms).single().unwrap();
    utc.with_timezone(&zone.tz).format("%Y-%m-%d %H:%M:%S%.3f %Z").to_string()
}

/// The instant in the zone, in RFC 3339 (`DateTime::to_rfc3339`).
#[verifier::external_body]
fn rfc3339_local(ms: i64, zone: &TimeZone) -> (r: String)
    requires
        millis_in_range(ms),
    ensures
        r@ == local_rfc3339(ms, zone.name_spec()),
{
    let utc = chrono::TimeZone::timestamp_millis_opt(&chrono::Utc, ms).single().unwrap();
    utc.with_timezone(&zone.tz).to_rfc3339()
}

/// The instant `ms` in `zone` as `YYYY-MM-DD hh:mm:ss.mmm ZONE`; an
/// instant out of range is shown as the epoch.
pub fn format_epoch_ms(ms: i64, zone: &TimeZone) -> (r: String)
    ensures
        r@ == local_time_text(if millis_in_range(ms) { ms } else { 0 }, zone.name_spec()),
{
    if in_range(ms) {
        format_local(ms, zone)
    } else {
        let _ = in_range(0);
        format_local(0, zone)
    }
}

/// The instant `ms` in `zone` in RFC 3339; an instant out of range is
/// shown as the epoch.
pub fn epoch_ms_to_iso(ms: i64, zone: &TimeZone) -> (r: String)
    ensures
        r@ == local_rfc3339(if millis_in_range(ms) { ms } else { 0 }, zone.name_spec()),
{
    if in_range(ms) {
        rfc3339_local(ms, zone)
    } else {
        let _ = in_range(0);
        rfc3339_local(0, zone)
    }
}

/// The zone name to use: the configured one unless it is blank, else the
/// default.
pub open spec fn zone_name(raw: Option<Seq<char>>, default: Seq<char>) -> Seq<char> {
    match raw {
        Some(s) => if trim(s).len() == 0 {
            default
        } else {
            s
        },
        None => default,
    }
}

/// The configured time zone, `default` when unset or blank; an unknown
/// zone is an error.
pub fn resolve_timezone(raw: Option<&str>, default: &str) -> (r: Result<TimeZone, ConfigError>)
    ensures
        ({
            let n = zone_name(crate::cookies::opt_view(raw), default@);
            if tz_known(n) {
                r matches Ok(z) && z.name_spec() == n
            } else {
                r matches Err(e) && invalid(e, "invalid timezone '"@ + n + "'"@)
            }
        }),
{
    let name: &str = match raw {
        Some(s) => if crate::text::trim_str(s).len() == 0 {
            default
        } else {
            s
        },
        None => default,
    };
    match parse_timezone(name) {
        Some(z) => Ok(z),
        None => {
            let mut msg: Vec<char> = Vec::new();
            push_str(&mut msg, "invalid timezone '");
            push_str(&mut msg, name);
            push_str(&mut msg, "'");
            Err(invalid_error(&msg))
        },
    }
}

} // verus!
