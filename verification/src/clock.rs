//! Trusted access to wall-clock time: the current unix time, and the local
//! wall-clock reading of a unix timestamp. Everything that is computed from
//! these values is verified elsewhere; only the readings themselves are
//! taken on trust.

use vstd::prelude::*;

verus! {

/// Relies on std's SystemTime::now and duration_since: the current unix time
/// in whole seconds (0 if the clock reads earlier than the epoch). Nothing is
/// promised of the value: it depends on the machine's clock.
#[verifier::external_body]
pub fn now_unix() -> u64 {
    match std::time::SystemTime::now().duration_since(std::time::UNIX_EPOCH) {
        Ok(d) => d.as_secs(),
        Err(_) => 0,
    }
}

/// Relies on chrono's Local::timestamp_opt and the Timelike accessors:
/// hour is 0 to 23, minute and second 0 to 59; a timestamp the local
/// calendar cannot represent gives None. Which wall-clock reading comes
/// back depends on the machine's time zone, so nothing more is stated.
#[verifier::external_body]
pub fn local_clock_parts(timestamp: u64) -> (r: Option<(u8, u8, u8)>)
    ensures
        r matches Some(hms) ==> hms.0 < 24 && hms.1 < 60 && hms.2 < 60,
{
    match chrono::TimeZone::timestamp_opt(&chrono::Local, timestamp as i64, 0) {
        chrono::LocalResult::Single(dt) => Some((
            chrono::Timelike::hour(&dt) as u8,
            chrono::Timelike::minute(&dt) as u8,
            chrono::Timelike::second(&dt) as u8,
        )),
        chrono::LocalResult::Ambiguous(dt, _) => Some((
            chrono::Timelike::hour(&dt) as u8,
            chrono::Timelike::minute(&dt) as u8,
            chrono::Timelike::second(&dt) as u8,
        )),
        chrono::LocalResult::None => None,
    }
}

} // verus!
