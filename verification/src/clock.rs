//! The wall clock, in the two textual forms the library stores.

use vstd::prelude::*;

verus! {

/// One reading of the clock: RFC 3339 (`2024-05-01T12:00:00.123+00:00`)
/// and the compact `YYYYMMDD_HHMMSS` form used in conflict ids.
pub struct Timestamp {
    pub rfc3339: String,
    pub compact: String,
}

/// The shape of a compact stamp `YYYYMMDD_HHMMSS`: digits, an underscore
/// seven characters from the end, and a year of at least four digits
/// (chrono writes a year past 9999 with a leading `+`).
pub open spec fn compact_stamp(ts: Seq<char>) -> bool {
    &&& ts.len() >= 15
    &&& ts[ts.len() - 7] == '_'
    &&& forall|i: int|
        0 <= i < ts.len() && i != ts.len() - 7 ==> ('0' <= #[trigger] ts[i] && ts[i] <= '9') || (i == 0
            && ts[i] == '+')
}

/// Wraps `chrono::Utc::now`, rendered by `DateTime::to_rfc3339` and by
/// `format("%Y%m%d_%H%M%S")`. The time is whatever the clock says, and two
/// readings may differ; only the shape of the compact form is stated:
/// `Utc::now` panics before 1970, so the year has four digits or more,
/// and month, day, hour, minute and second two each.
#[verifier::external_body]
pub(crate) fn utc_now() -> (res: Timestamp)
    ensures
        compact_stamp(res.compact@),
{
    let t = chrono::Utc::now();
    Timestamp { rfc3339: t.to_rfc3339(), compact: t.format("%Y%m%d_%H%M%S").to_string() }
}

/// A parsed time, rendered in UTC: RFC 3339 and as `DateTime<Utc>`
/// displays (`2024-05-01 12:00:00.123 UTC`).
pub struct UtcText {
    pub rfc3339: String,
    pub display: String,
}

/// What parsing `text` as RFC 3339 gives: the time in UTC, as
/// `(to_rfc3339, Display)`, or `None` when it does not parse.
pub uninterp spec fn parse_rfc3339_spec(text: Seq<char>) -> Option<(Seq<char>, Seq<char>)>;

/// Wraps `DateTime::parse_from_rfc3339`, converted with
/// `with_timezone(&Utc)` and rendered by `to_rfc3339` and `Display`. The
/// result depends on the text alone; what it is is not stated.
#[verifier::external_body]
pub(crate) fn parse_rfc3339(text: &str) -> (res: Option<UtcText>)
    ensures
        (match res {
            Some(t) => Some((t.rfc3339@, t.display@)),
            None => None,
        }) == parse_rfc3339_spec(text@),
{
    match chrono::DateTime::parse_from_rfc3339(text) {
        Ok(t) => {
            let u = t.with_timezone(&chrono::Utc);
            Some(UtcText { rfc3339: u.to_rfc3339(), display: u.to_string() })
        },
        Err(_) => None,
    }
}

} // verus!
