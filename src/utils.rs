//! Calendar helpers for the fixed UTC+8 zone the service keeps its dates in.
//!
//! Instants are Unix seconds (`i64`). What only a calendar library can say
//! (which month an instant falls in, when a month starts, how an instant is
//! written in RFC 3339) comes from chrono, behind the wrappers below.

use chrono::{Datelike, TimeZone};
use vstd::prelude::*;

verus! {

/// The offset of the service's zone from UTC, in seconds.
pub const BEIJING_OFFSET_SECONDS: i32 = 28800;

/// Year and month (1 to 12) of the Unix instant `t` seen at a fixed
/// offset of `offset` seconds east of UTC; `None` where the offset or the
/// instant lies outside chrono's range.
pub uninterp spec fn local_year_month_of(t: int, offset: int) -> Option<(int, int)>;

/// The Unix instant of the local time `y-m-d h:mi:s` at a fixed offset of
/// `offset` seconds east of UTC; `None` where that is no valid time or
/// chrono cannot represent it.
pub uninterp spec fn local_instant_of(y: int, m: int, d: int, h: int, mi: int, s: int, offset: int) -> Option<i64>;

/// The RFC 3339 text of the Unix instant `t` seen at a fixed offset of
/// `offset` seconds east of UTC.
pub uninterp spec fn rfc3339_at_of(t: int, offset: int) -> Option<Seq<char>>;

/// Relies on chrono's `FixedOffset::east_opt`, `DateTime::from_timestamp`
/// and `with_timezone`: the calendar year and month of an instant seen at a
/// fixed offset.
#[verifier::external_body]
fn local_year_month(t: i64, offset: i32) -> (r: Option<(i32, u32)>)
    ensures
        r matches Some(p) ==> local_year_month_of(t as int, offset as int) == Some((p.0 as int, p.1 as int)),
        r is None ==> local_year_month_of(t as int, offset as int) is None,
        r matches Some(p) ==> 1 <= p.1 <= 12 && p.0 < i32::MAX,
{
    let tz = chrono::FixedOffset::east_opt(offset)?;
    let d = chrono::DateTime::from_timestamp(t, 0)?.with_timezone(&tz);
    Some((d.year(), d.month()))
}

/// Relies on chrono's `FixedOffset::east_opt` and
/// `TimeZone::with_ymd_and_hms`: the instant of a local time at a fixed
/// offset, which a fixed offset makes unique.
#[verifier::external_body]
fn local_instant(y: i32, m: u32, d: u32, h: u32, mi: u32, sec: u32, offset: i32) -> (r: Option<i64>)
    ensures
        r == local_instant_of(y as int, m as int, d as int, h as int, mi as int, sec as int, offset as int),
{
    let tz = chrono::FixedOffset::east_opt(offset)?;
    Some(tz.with_ymd_and_hms(y, m, d, h, mi, sec).single()?.timestamp())
}

/// Relies on chrono's `FixedOffset::east_opt` and `DateTime::to_rfc3339` on
/// an instant seen at that offset.
#[verifier::external_body]
fn rfc3339_at(t: i64, offset: i32) -> (r: Option<String>)
    ensures
        r matches Some(s) ==> rfc3339_at_of(t as int, offset as int) == Some(s@),
        r is None ==> rfc3339_at_of(t as int, offset as int) is None,
{
    let tz = chrono::FixedOffset::east_opt(offset)?;
    Some(chrono::DateTime::from_timestamp(t, 0)?.with_timezone(&tz).to_rfc3339())
}

/// The RFC 3339 text of `t` in the service's zone, UTC+8.
pub open spec fn beijing_rfc3339_of(t: int) -> Option<Seq<char>> {
    rfc3339_at_of(t, BEIJING_OFFSET_SECONDS as int)
}

/// Relies on `SystemTime::now` and `duration_since(UNIX_EPOCH)`: the
/// current Unix time in whole seconds; `None` where the clock reads before
/// 1970 or beyond `i64`. Nothing is known of the value.
#[verifier::external_body]
pub fn unix_now() -> (r: Option<i64>) {
    let d = std::time::SystemTime::now().duration_since(std::time::UNIX_EPOCH).ok()?;
    i64::try_from(d.as_secs()).ok()
}

/// The month after `(y, m)`; December wraps to January of the next year.
pub open spec fn next_month(y: int, m: int) -> (int, int) {
    if m == 12 { (y + 1, 1) } else { (y, m + 1) }
}

/// The first instant of the month after the one holding `now`, in UTC+8:
/// day 1, 00:00:00, offset `+08:00`.
pub open spec fn next_month_reset_of(now: int) -> Option<i64> {
    match local_year_month_of(now, BEIJING_OFFSET_SECONDS as int) {
        Some(p) => {
            let n = next_month(p.0, p.1);
            local_instant_of(n.0, n.1, 1, 0, 0, 0, BEIJING_OFFSET_SECONDS as int)
        },
        None => None,
    }
}

/// The first second of the month after the one holding `now`, in UTC+8, as
/// a Unix instant; `None` where the calendar cannot represent it.
pub fn next_month_reset(now: i64) -> (r: Option<i64>)
    ensures
        r == next_month_reset_of(now as int),
{
    match local_year_month(now, BEIJING_OFFSET_SECONDS) {
        Some((y, m)) => {
            if m == 12 {
                local_instant(y + 1, 1, 1, 0, 0, 0, BEIJING_OFFSET_SECONDS)
            } else {
                local_instant(y, m + 1, 1, 0, 0, 0, BEIJING_OFFSET_SECONDS)
            }
        },
        None => None,
    }
}

/// `t` written as RFC 3339 text at offset `+08:00`.
pub fn rfc3339_beijing(t: i64) -> (r: Option<String>)
    ensures
        r matches Some(s) ==> beijing_rfc3339_of(t as int) == Some(s@),
        r is None ==> beijing_rfc3339_of(t as int) is None,
{
    rfc3339_at(t, BEIJING_OFFSET_SECONDS)
}

/// The current time as RFC 3339 text at offset `+08:00`; empty where the
/// clock cannot be read or reads outside the calendar's range.
pub fn now_beijing_rfc3339() -> (r: String)
    ensures
        r@.len() == 0 || exists|t: int| beijing_rfc3339_of(t) == Some(r@),
{
    match unix_now() {
        Some(t) => match rfc3339_beijing(t) {
            Some(s) => s,
            None => String::new(),
        },
        None => String::new(),
    }
}

} // verus!
