//! The wall clock.

use vstd::prelude::*;

verus! {

/// `chrono::Local::now` and `DateTime::timestamp`: the seconds that have
/// passed since the first of January 1970, as the system clock reads them.
/// Nothing is stated of the result. The call does not return where the
/// system clock reads a time before 1970.
#[verifier::external_body]
pub(crate) fn unix_now() -> (now: i64) {
    chrono::Local::now().timestamp()
}

} // verus!
