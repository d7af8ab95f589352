//! The one place the library reads the clock.

use vstd::prelude::*;

verus! {

/// Relies on chrono: `Utc::now().to_rfc3339()` formats the current UTC time
/// as an RFC 3339 text such as `1996-12-19T16:39:57+00:00`, which is never
/// empty. Nothing further is assumed of the value: it depends on the clock.
#[verifier::external_body]
pub fn now_rfc3339() -> (r: String)
    ensures
        r@.len() > 0,
{
    chrono::Utc::now().to_rfc3339()
}

} // verus!
