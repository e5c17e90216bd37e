use vstd::prelude::*;

verus! {

/// Relies on `std::time::SystemTime::now` and `duration_since(UNIX_EPOCH)`:
/// milliseconds of wall-clock time since the epoch. The clock is the
/// machine's; nothing can be promised of the value.
#[verifier::external_body]
pub fn unix_millis() -> u64 {
    std::time::SystemTime::now().duration_since(std::time::UNIX_EPOCH).unwrap().as_millis() as u64
}

} // verus!
