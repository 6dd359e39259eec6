//! The wall clock, read through chrono.
use vstd::prelude::*;

verus! {

/// Relies on `chrono::Local::now` and `DateTime::format`: the local time of
/// day at second resolution, written "HH:MM:SS". It depends on when it is
/// called, so nothing is stated of it.
#[verifier::external_body]
pub(crate) fn local_time_hms() -> (r: String) {
    chrono::Local::now().format("%H:%M:%S").to_string()
}

} // verus!
