use vstd::prelude::*;

verus! {

/// Relies on `std::time::SystemTime::now` and `duration_since`:
/// milliseconds since the Unix epoch, or 0 if the clock reads earlier
/// than the epoch. The value depends on the wall clock, so nothing
/// more is promised of it.
#[verifier::external_body]
pub(crate) fn now_millis() -> u128 {
    std::time::SystemTime::now()
        .duration_since(std::time::UNIX_EPOCH)
        .map(|elapsed| elapsed.as_millis())
        .unwrap_or(0)
}

/// Relies on `std::time::SystemTime::now` and `duration_since`:
/// seconds since the Unix epoch, or 0 if the clock reads earlier than
/// the epoch. The value depends on the wall clock, so nothing more is
/// promised of it.
#[verifier::external_body]
pub(crate) fn now_seconds() -> u64 {
    std::time::SystemTime::now()
        .duration_since(std::time::UNIX_EPOCH)
        .map(|elapsed| elapsed.as_secs())
        .unwrap_or(0)
}

} // verus!
