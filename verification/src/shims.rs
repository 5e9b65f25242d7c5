//! The trusted boundary: every call into an outside crate stands here, behind
//! a contract that Verus believes. Each wrapper names the function it relies
//! on; each `uninterp` spec function names a result that is a pure function
//! of the wrapper's arguments but too involved to state directly.
use vstd::prelude::*;

verus! {

/// The canonical token of a string in JSON number grammar; `None` when the
/// string is not a JSON number.
pub uninterp spec fn json_number_of(s: Seq<char>) -> Option<Seq<char>>;

/// Relies on serde_json's `Number`: its `FromStr` accepts exactly the JSON
/// number grammar, and its `Display` prints the canonical token. Both are
/// functions of the string alone.
#[verifier::external_body]
pub fn json_number_token(s: &str) -> (r: Option<String>)
    ensures
        r is Some <==> json_number_of(s@) is Some,
        r is Some ==> r.unwrap()@ == json_number_of(s@).unwrap(),
{
    match s.parse::<serde_json::Number>() {
        Ok(n) => Some(n.to_string()),
        Err(_) => None,
    }
}

/// The key/value pairs of a query string, each key unique, in ascending key
/// order; `None` when the query string is malformed.
pub uninterp spec fn query_pairs_of(s: Seq<char>) -> Option<Seq<(Seq<char>, Seq<char>)>>;

/// Relies on `serde_qs::from_str` into a `BTreeMap<String, String>`: on
/// success the parsed pairs come out with unique keys in the map's ascending
/// key order; a malformed query string is refused. The outcome is a function
/// of the input string alone.
#[verifier::external_body]
pub fn parse_query(s: &str) -> (r: Option<Vec<(String, String)>>)
    ensures
        r.deep_view() == query_pairs_of(s@),
{
    match serde_qs::from_str::<std::collections::BTreeMap<String, String>>(s) {
        Ok(m) => Some(m.into_iter().collect()),
        Err(_) => None,
    }
}

/// The hour of day of the instant `ts` (epoch seconds), read in the named
/// time zone; `None` for an unknown zone name or an unrepresentable instant.
pub uninterp spec fn tz_local_hour_of(name: Seq<char>, ts: int) -> Option<int>;

/// Relies on chrono_tz's `Tz::from_str` and chrono's `with_timezone` and
/// `Timelike::hour`: the local hour is between 0 and 23, and the zone
/// database is compiled in, so the outcome is a function of the arguments
/// alone.
#[verifier::external_body]
pub fn local_hour_in_zone(name: &str, ts: i64) -> (r: Option<u8>)
    ensures
        r is Some <==> tz_local_hour_of(name@, ts as int) is Some,
        r is Some ==> r.unwrap() < 24 && r.unwrap() as int == tz_local_hour_of(
            name@,
            ts as int,
        ).unwrap(),
{
    match <chrono_tz::Tz as std::str::FromStr>::from_str(name) {
        Ok(tz) => match chrono::TimeZone::timestamp_opt(&chrono::Utc, ts, 0).single() {
            Some(dt) => Some(chrono::Timelike::hour(&dt.with_timezone(&tz)) as u8),
            None => None,
        },
        Err(_) => None,
    }
}

/// The RFC 3339 rendering of the instant `ts` (epoch seconds); `None` when
/// chrono cannot represent the instant.
pub uninterp spec fn rfc3339_of(ts: int) -> Option<Seq<char>>;

/// Relies on chrono's `DateTime::from_timestamp` and `to_rfc3339`: the
/// rendering is a function of the timestamp alone.
#[verifier::external_body]
pub fn rfc3339_from_timestamp(ts: i64) -> (r: Option<String>)
    ensures
        r is Some <==> rfc3339_of(ts as int) is Some,
        r is Some ==> r.unwrap()@ == rfc3339_of(ts as int).unwrap(),
{
    match chrono::DateTime::from_timestamp(ts, 0) {
        Some(dt) => Some(dt.to_rfc3339()),
        None => None,
    }
}

} // verus!
