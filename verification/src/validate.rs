//! The two field checks that every record is built from.

use vstd::prelude::*;
use validator::ValidateLength;
use validator::ValidateRange;

verus! {

/// Whether a text of `len` characters meets the optional bounds.
pub open spec fn length_ok(len: nat, min: Option<u64>, max: Option<u64>) -> bool {
    &&& (min matches Some(m) ==> m <= len)
    &&& (max matches Some(m) ==> len <= m)
}

/// Calls `validator::ValidateLength::validate_length` on a string slice with
/// no `equal` bound. The validator counts the string's characters (not its
/// bytes) and accepts the count when it is not under `min` and not over
/// `max`, each bound applying only where it is given.
#[verifier::external_body]
pub(crate) fn check_length(text: &str, min: Option<u64>, max: Option<u64>) -> (ok: bool)
    ensures
        ok == length_ok(text@.len(), min, max),
{
    text.validate_length(min, max, None)
}

/// Calls `validator::ValidateRange::validate_range` on a `u64` with a lower
/// bound only. The validator refuses the value exactly when it is less than
/// `min`.
#[verifier::external_body]
pub(crate) fn check_at_least(value: u64, min: u64) -> (ok: bool)
    ensures
        ok == (value >= min),
{
    value.validate_range(Some(min), None, None, None)
}

} // verus!
