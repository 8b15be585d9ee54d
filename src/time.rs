use vstd::prelude::*;

verus! {

/// Names the RFC 3339 text that chrono writes for a count of seconds since
/// the Unix epoch (UTC), or the empty text where chrono has no such instant.
pub uninterp spec fn rfc3339_of(secs: int) -> Seq<char>;

/// Relies on `chrono::DateTime::from_timestamp` and `to_rfc3339`: the text
/// depends on the count of seconds alone.
#[verifier::external_body]
pub fn rfc3339_from_secs(secs: i64) -> (r: String)
    ensures
        r@ == rfc3339_of(secs as int),
{
    chrono::DateTime::from_timestamp(secs, 0).map(|dt| dt.to_rfc3339()).unwrap_or_default()
}

pub open spec fn opt_time(secs: Option<i64>) -> Option<Seq<char>> {
    match secs {
        Some(s) => Some(rfc3339_of(s as int)),
        None => None,
    }
}

/// The RFC 3339 text of a file time, where the file has one.
pub fn file_time(secs: Option<i64>) -> (r: Option<String>)
    ensures
        crate::shared_models::opt_view(r) == opt_time(secs),
{
    match secs {
        Some(s) => Some(rfc3339_from_secs(s)),
        None => None,
    }
}

} // verus!
