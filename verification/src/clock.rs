use vstd::prelude::*;

verus! {

/// Relies on `chrono::Utc::now` and `chrono::DateTime::to_rfc3339`: the
/// current instant rendered as an RFC 3339 timestamp such as
/// `1996-12-19T16:39:57+00:00`. The value depends on the clock, so nothing
/// is assumed of it beyond being a nonempty string.
#[verifier::external_body]
pub(crate) fn now_rfc3339() -> (r: String)
    ensures
        r@.len() > 0,
{
    chrono::Utc::now().to_rfc3339()
}

} // verus!
