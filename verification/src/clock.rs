//! The wall clock, read where a record is stamped with the time.
use vstd::prelude::*;

verus! {

/// The clock read before the Unix epoch.
pub enum ClockError {
    BeforeEpoch,
}

impl ClockError {
    pub fn message(&self) -> (r: String)
        ensures
            r@ == "system time error: clock before the Unix epoch"@,
    {
        String::from_str("system time error: clock before the Unix epoch")
    }
}

/// Seconds since the Unix epoch by `SystemTime::now()`. The time is not
/// described: any value, or the error, may come back.
#[verifier::external_body]
pub(crate) fn unix_timestamp() -> (r: Result<u64, ClockError>) {
    match std::time::SystemTime::now().duration_since(std::time::UNIX_EPOCH) {
        Ok(d) => Ok(d.as_secs()),
        Err(_) => Err(ClockError::BeforeEpoch),
    }
}

/// Milliseconds since the Unix epoch by `SystemTime::now()`. The time is not
/// described: any value, or the error, may come back.
#[verifier::external_body]
pub(crate) fn unix_timestamp_millis() -> (r: Result<u128, ClockError>) {
    match std::time::SystemTime::now().duration_since(std::time::UNIX_EPOCH) {
        Ok(d) => Ok(d.as_millis()),
        Err(_) => Err(ClockError::BeforeEpoch),
    }
}

} // verus!
