//! The wall clock.

use std::time::{Duration, SystemTime, SystemTimeError, UNIX_EPOCH};

use vstd::prelude::*;

verus! {

/// A point in time of the system's clock.
#[verifier::external_type_specification]
#[verifier::external_body]
pub struct ExSystemTime(SystemTime);

/// That one point in time is before another.
#[verifier::external_type_specification]
#[verifier::external_body]
pub struct ExSystemTimeError(SystemTimeError);

/// How long after the Unix epoch a point in time is. `None`: it is before the epoch.
pub uninterp spec fn epoch_distance(t: SystemTime) -> Option<Duration>;

/// The whole seconds of a span of time.
pub uninterp spec fn span_secs(d: Duration) -> u64;

/// The whole milliseconds of a span of time.
pub uninterp spec fn span_millis(d: Duration) -> u128;

/// `SystemTime::now` reads the clock. Nothing is promised of what it shows.
#[verifier::external_body]
fn now() -> SystemTime {
    SystemTime::now()
}

/// `SystemTime::duration_since` the Unix epoch: the time that has passed since, an error if the
/// point in time is before it.
#[verifier::external_body]
fn since_epoch(t: SystemTime) -> (r: Result<Duration, SystemTimeError>)
    ensures
        r is Ok <==> epoch_distance(t) is Some,
        r matches Ok(d) ==> epoch_distance(t) == Some(d),
{
    t.duration_since(UNIX_EPOCH)
}

/// `Duration::as_secs`: the whole seconds of a span of time.
#[verifier::external_body]
fn whole_secs(d: Duration) -> (secs: u64)
    ensures
        secs == span_secs(d),
{
    d.as_secs()
}

/// `Duration::as_millis`: the whole milliseconds of a span of time.
#[verifier::external_body]
fn whole_millis(d: Duration) -> (millis: u128)
    ensures
        millis == span_millis(d),
{
    d.as_millis()
}

/// Why the clock gives no time.
#[derive(Debug, Clone, Copy, PartialEq, Eq, Structural)]
pub enum ClockError {
    /// It stands before 1970.
    BeforeEpoch,
    /// It shows more seconds than a signed 64-bit number holds.
    OutOfRange,
}

/// A number of seconds as a signed number.
pub open spec fn as_signed_secs(secs: u64) -> Result<i64, ClockError> {
    if secs <= i64::MAX {
        Ok(secs as i64)
    } else {
        Err(ClockError::OutOfRange)
    }
}

/// The seconds since the Unix epoch when the clock shows `t`.
pub open spec fn secs_at(t: SystemTime) -> Result<i64, ClockError> {
    match epoch_distance(t) {
        Some(d) => as_signed_secs(span_secs(d)),
        None => Err(ClockError::BeforeEpoch),
    }
}

/// The seconds since the Unix epoch, if they can be had as a signed number.
pub fn unix_secs() -> (r: Result<i64, ClockError>)
    ensures
        exists|t: SystemTime| r == #[trigger] secs_at(t),
{
    let t = now();
    let ghost shown = t;
    let r = match since_epoch(t) {
        Ok(d) => signed_secs(whole_secs(d)),
        Err(_) => Err(ClockError::BeforeEpoch),
    };
    assert(r == secs_at(shown));
    r
}

/// A number of seconds as a signed number.
pub fn signed_secs(secs: u64) -> (r: Result<i64, ClockError>)
    ensures
        r == as_signed_secs(secs),
{
    if secs <= 0x7fff_ffff_ffff_ffff {
        Ok(secs as i64)
    } else {
        Err(ClockError::OutOfRange)
    }
}

/// The low 64 bits of a number of milliseconds, as a signed number.
pub open spec fn low_signed(millis: u128) -> int {
    let low = millis as int % 0x1_0000_0000_0000_0000;
    if low <= i64::MAX {
        low
    } else {
        low - 0x1_0000_0000_0000_0000
    }
}

/// The low 64 bits of a number of milliseconds, as a signed number.
pub fn signed_millis(millis: u128) -> (r: i64)
    ensures
        r == low_signed(millis),
{
    let low: u64 = (millis % 0x1_0000_0000_0000_0000) as u64;
    if low <= 0x7fff_ffff_ffff_ffff {
        low as i64
    } else {
        -((0xffff_ffff_ffff_ffff - low) as i64) - 1
    }
}

/// The milliseconds since the Unix epoch when the clock shows `t`; zero if `t` is before it.
pub open spec fn millis_at(t: SystemTime) -> int {
    match epoch_distance(t) {
        Some(d) => low_signed(span_millis(d)),
        None => 0,
    }
}

/// The milliseconds since the Unix epoch; zero if the clock stands before it.
pub fn unix_millis() -> (r: i64)
    ensures
        exists|t: SystemTime| r == #[trigger] millis_at(t),
{
    let t = now();
    let ghost shown = t;
    let r: i64 = match since_epoch(t) {
        Ok(d) => signed_millis(whole_millis(d)),
        Err(_) => 0,
    };
    assert(r == millis_at(shown));
    r
}

/// A time in milliseconds keeps its value modulo the numbers that 64 bits hold, and keeps it as it
/// is where a signed 64-bit number holds it.
pub proof fn law_milliseconds_keep_their_low_bits(millis: u128)
    ensures
        i64::MIN <= low_signed(millis) <= i64::MAX,
        (millis - low_signed(millis)) % 0x1_0000_0000_0000_0000 == 0,
        millis <= i64::MAX ==> low_signed(millis) == millis,
{
    let m = millis as int;
    let q = m / 0x1_0000_0000_0000_0000;
    assert(m == q * 0x1_0000_0000_0000_0000 + m % 0x1_0000_0000_0000_0000);
    if low_signed(millis) < 0 {
        assert(m - low_signed(millis) == (q + 1) * 0x1_0000_0000_0000_0000);
    }
}

/// A number of seconds is the same number with a sign, or out of range where there is none.
pub proof fn law_seconds_are_kept(secs: u64)
    ensures
        secs <= i64::MAX ==> (as_signed_secs(secs) matches Ok(n) && n == secs),
        secs > i64::MAX ==> as_signed_secs(secs) == Err::<i64, ClockError>(ClockError::OutOfRange),
{
}

/// The clock tells the time since the epoch. Before the epoch there is none: no seconds, and zero
/// milliseconds.
pub proof fn law_clock_tells_the_time_since_the_epoch(t: SystemTime)
    ensures
        epoch_distance(t) is None ==> secs_at(t) == Err::<i64, ClockError>(ClockError::BeforeEpoch)
            && millis_at(t) == 0,
        epoch_distance(t) matches Some(d) && span_secs(d) <= i64::MAX ==> (secs_at(t) matches Ok(n)
            && n == span_secs(epoch_distance(t)->0)),
        epoch_distance(t) matches Some(d) && span_millis(d) <= i64::MAX ==> millis_at(t)
            == span_millis(epoch_distance(t)->0),
{
}

} // verus!
