use vstd::prelude::*;

verus! {

/// `chrono::Utc::now()` as a Unix timestamp in seconds. The clock is read, so nothing is
/// promised of the value.
#[verifier::external_body]
pub(crate) fn now_timestamp() -> i64 {
    chrono::Utc::now().timestamp()
}

/// The Unix timestamp of the RFC 3339 date-time `s` as chrono's `FromStr` for
/// `DateTime<Utc>` reads it, or `None` where chrono refuses `s`.
pub uninterp spec fn utc_timestamp_of(s: Seq<char>) -> Option<i64>;

/// `s.parse::<chrono::DateTime<chrono::Utc>>()`, then `timestamp()` of the result.
/// Claimed: the result depends on the text of `s` alone (it is named, not described).
#[verifier::external_body]
pub(crate) fn parse_utc_timestamp(s: &str) -> (res: Option<i64>)
    ensures
        res == utc_timestamp_of(s@),
{
    match s.parse::<chrono::DateTime<chrono::Utc>>() {
        Ok(dt) => Some(dt.timestamp()),
        Err(_) => None,
    }
}

/// The Unix timestamp of `s` read by chrono's `NaiveDateTime::parse_from_str` with the
/// format `fmt` and taken as UTC, or `None` where chrono refuses `s`.
pub uninterp spec fn naive_timestamp_of(s: Seq<char>, fmt: Seq<char>) -> Option<i64>;

/// `chrono::NaiveDateTime::parse_from_str(s, fmt)`, then `and_utc().timestamp()` of the
/// result.
/// Claimed: the result depends on the texts of `s` and `fmt` alone (it is named, not
/// described).
#[verifier::external_body]
pub(crate) fn parse_naive_timestamp(s: &str, fmt: &str) -> (res: Option<i64>)
    ensures
        res == naive_timestamp_of(s@, fmt@),
{
    match chrono::NaiveDateTime::parse_from_str(s, fmt) {
        Ok(dt) => Some(dt.and_utc().timestamp()),
        Err(_) => None,
    }
}

/// The number chrono gives (with `num_days_from_ce`, 1 January of year 1 being day 1)
/// to the UTC date on which the second `ts` of the Unix epoch falls.
pub open spec fn utc_day_number(ts: int) -> int {
    ts / 86400 + 719163
}

/// Timestamps far enough inside chrono's calendar (years -262143 to 262142) for a date
/// to exist: about 220 000 years either way.
pub open spec fn in_calendar_range(ts: int) -> bool {
    -7_000_000_000_000 <= ts <= 7_000_000_000_000
}

/// `chrono::DateTime::from_timestamp(ts, 0)`, then `date_naive().num_days_from_ce()`.
/// Claimed, from chrono's source: the date is day `ts.div_euclid(86400) + 719163`, and
/// there is one for every timestamp in `in_calendar_range`.
#[verifier::external_body]
pub(crate) fn utc_days_from_ce(ts: i64) -> (res: Option<i32>)
    ensures
        res matches Some(d) ==> d as int == utc_day_number(ts as int),
        in_calendar_range(ts as int) ==> res is Some,
{
    match chrono::DateTime::from_timestamp(ts, 0) {
        Some(dt) => Some(chrono::Datelike::num_days_from_ce(&dt.date_naive())),
        None => None,
    }
}

} // verus!
