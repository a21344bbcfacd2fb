//! The system clock.

use vstd::prelude::*;

verus! {

/// One reading of the system clock, in whole seconds since the start of
/// 1970. This is `time::get_time`, of which only the seconds are kept.
/// Nothing is claimed of the value: two readings may differ in any way.
#[verifier::external_body]
pub(crate) fn clock_seconds() -> (seconds: i64) {
    time::get_time().sec
}

} // verus!
