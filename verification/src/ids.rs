//! Fresh identifiers, drawn from the uuid crate.

use vstd::prelude::*;

verus! {

/// Relies on uuid::Uuid::new_v4 and its Simple and Hyphenated renderings:
/// the simple form is 32 lower-case hex characters, and the hyphenated
/// form is the same characters with dashes inserted after positions 8, 12,
/// 16 and 20.  The draw itself is random, so nothing relates two calls.
#[verifier::external_body]
pub fn fresh_uuid() -> (r: (String, String))
    ensures
        r.0@.len() == 32,
        r.1@.len() == 36,
        r.1@ =~= r.0@.subrange(0, 8) + "-"@ + r.0@.subrange(8, 12) + "-"@ + r.0@.subrange(12, 16)
            + "-"@ + r.0@.subrange(16, 20) + "-"@ + r.0@.subrange(20, 32),
{
    let u = uuid::Uuid::new_v4();
    (u.simple().to_string(), u.hyphenated().to_string())
}

} // verus!
