use vstd::prelude::*;

verus! {

/// The RFC 3339 text of a Unix time in UTC, as chrono writes it, or `None`
/// when the time lies outside chrono's range; it depends on the number alone.
pub uninterp spec fn utc_rfc3339(unix: i64) -> Option<Seq<char>>;

/// Relies on chrono's `DateTime::<Utc>::from_timestamp` (`None` outside its
/// range) and `DateTime::to_rfc3339`: the text depends on the time alone.
#[verifier::external_body]
fn rfc3339_text(unix: i64) -> (r: Option<String>)
    ensures
        match utc_rfc3339(unix) {
            Some(s) => r is Some && r.unwrap()@ == s,
            None => r is None,
        },
{
    match chrono::DateTime::from_timestamp(unix, 0) {
        Some(dt) => Some(dt.to_rfc3339()),
        None => None,
    }
}

/// A Unix time in seconds as an RFC 3339 timestamp in UTC; `None` when chrono
/// cannot represent the time.
pub fn unix_to_utc_string(unix: i64) -> (r: Option<String>)
    ensures
        match utc_rfc3339(unix) {
            Some(s) => r is Some && r.unwrap()@ == s,
            None => r is None,
        },
{
    rfc3339_text(unix)
}

} // verus!
