//! The wall clock, in microseconds since the Unix epoch.

use vstd::prelude::*;
use std::time::{Duration, SystemTime};

verus! {

/// `std::time::SystemTime`, carried through unread.
#[verifier::external_type_specification]
#[verifier::external_body]
pub struct ExSystemTime(SystemTime);

/// `SystemTime::now`: the current time. Nothing is claimed of it.
#[verifier::external_body]
fn system_time_now() -> SystemTime {
    SystemTime::now()
}

/// `SystemTime::duration_since`, taken from `SystemTime::UNIX_EPOCH`; its
/// error (a clock set before the epoch) becomes `None`. Nothing is claimed
/// of the outcome, which depends on the clock.
#[verifier::external_body]
fn duration_since_unix_epoch(t: &SystemTime) -> Option<Duration> {
    t.duration_since(SystemTime::UNIX_EPOCH).ok()
}

/// `Duration::as_secs`: the whole seconds of the duration. The duration
/// comes from the clock, so nothing is claimed of the number.
#[verifier::external_body]
fn duration_as_secs(d: &Duration) -> u64 {
    d.as_secs()
}

/// `Duration::subsec_nanos`: the fractional part of the duration in
/// nanoseconds, which std documents to be less than one billion; that bound
/// is all the contract claims.
#[verifier::external_body]
fn duration_subsec_nanos(d: &Duration) -> (r: u32)
    ensures
        r < 1_000_000_000,
{
    d.subsec_nanos()
}

/// The whole microseconds of a duration of `secs` seconds and `nanos`
/// nanoseconds, as `Duration::as_micros` counts them.
pub open spec fn micros_of(secs: nat, nanos: nat) -> nat {
    secs * 1_000_000 + nanos / 1000
}

/// The whole microseconds of a duration of `secs` seconds and `nanos`
/// nanoseconds (the fraction of a second).
pub fn micros(secs: u64, nanos: u32) -> (r: u128)
    requires
        nanos < 1_000_000_000,
    ensures
        r == micros_of(secs as nat, nanos as nat),
{
    assert(secs * 1_000_000 <= u64::MAX * 1_000_000) by (nonlinear_arith);
    secs as u128 * 1_000_000 + (nanos / 1000) as u128
}

/// The time in microseconds since the Unix epoch that a clock reading
/// gives: `None` for a clock before the epoch, otherwise the whole
/// microseconds of the reading's seconds and nanoseconds.
pub fn micros_since_epoch(reading: Option<(u64, u32)>) -> (r: Option<u128>)
    requires
        reading matches Some(p) ==> p.1 < 1_000_000_000,
    ensures
        match reading {
            Some((secs, nanos)) => r == Some(micros_of(secs as nat, nanos as nat) as u128),
            None => r is None,
        },
{
    match reading {
        Some((secs, nanos)) => Some(micros(secs, nanos)),
        None => None,
    }
}

/// The current time in microseconds since the Unix epoch; `None` when the
/// clock reads a time before the epoch. Whatever the clock reads, the value
/// is the whole microseconds of some number of seconds and a fraction of a
/// second in nanoseconds.
pub fn get_now_us() -> (r: Option<u128>)
    ensures
        r matches Some(v) ==> exists|secs: u64, nanos: u32|
            nanos < 1_000_000_000 && v == micros_of(secs as nat, nanos as nat),
{
    let now = system_time_now();
    let reading = match duration_since_unix_epoch(&now) {
        Some(d) => Some((duration_as_secs(&d), duration_subsec_nanos(&d))),
        None => None,
    };
    let r = micros_since_epoch(reading);
    proof {
        if let Some((secs, nanos)) = reading {
            assert(nanos < 1_000_000_000 && r->0 == micros_of(secs as nat, nanos as nat));
        }
    }
    r
}

} // verus!
