//! The clock: where the dates on the records come from.

use vstd::prelude::*;

verus! {

/// A calendar date and time of day without a time zone. The library only
/// carries these values from the clock into the records.
#[verifier::external_type_specification]
#[verifier::external_body]
pub struct ExNaiveDateTime(chrono::NaiveDateTime);

/// Reads the clock through `chrono::Utc::now` and drops the zone with
/// `DateTime::naive_utc`. Nothing is claimed of the moment that comes back.
#[verifier::external_body]
pub(crate) fn now() -> chrono::NaiveDateTime {
    chrono::Utc::now().naive_utc()
}

} // verus!
