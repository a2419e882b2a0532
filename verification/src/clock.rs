//! The current month, as the machine's clock and time zone give it.

use vstd::prelude::*;
use crate::expiry::YearMonth;

verus! {

/// The year and month of the current local date.
///
/// Trusted: the body calls `chrono::Local::now` and reads the result with
/// `year` and `month` of `chrono::Datelike`. The contract claims only what
/// chrono documents of `month`, that it lies between 1 and 12. Which date
/// comes back depends on the clock and the time zone of the machine, so two
/// calls may differ. chrono panics where the clock stands before 1970.
#[verifier::external_body]
pub(crate) fn local_year_month() -> (today: YearMonth)
    ensures
        1 <= today.month <= 12,
{
    let now = chrono::Local::now();
    YearMonth { year: chrono::Datelike::year(&now), month: chrono::Datelike::month(&now) }
}

} // verus!
