//! The one place where the library reads the clock.

use vstd::prelude::*;

verus! {

/// Calls `chrono::Utc::now()` and writes the result out with
/// `DateTime::to_rfc3339`. What comes back depends on the clock, so the
/// contract says nothing of it. chrono takes the system clock to stand at
/// or after the start of 1970, and stops the program where it does not.
#[verifier::external_body]
pub(crate) fn current_timestamp() -> (stamp: String) {
    chrono::Utc::now().to_rfc3339()
}

} // verus!
