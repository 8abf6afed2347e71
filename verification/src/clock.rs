//! The wall clock, as the ledger sees it.

use vstd::prelude::*;
use chrono::NaiveDateTime;

verus! {

/// `chrono::NaiveDateTime`, carried through the ledger as an opaque value:
/// the ledger stamps transactions and statements with it and never looks
/// inside.
#[verifier::external_type_specification]
#[verifier::external_body]
pub struct ExNaiveDateTime(NaiveDateTime);

/// The current UTC date and time: `chrono::Utc::now()`, taken as the naive
/// UTC datetime it holds (`DateTime::naive_utc`).
///
/// Nothing is claimed of the value: two readings may differ in any way.
/// `Utc::now()` panics when the system clock stands before the Unix epoch.
#[verifier::external_body]
pub(crate) fn now() -> (t: NaiveDateTime) {
    chrono::Utc::now().naive_utc()
}

} // verus!
