//! Readings of the system clocks. Every reading depends on when it is
//! taken, so of a reading only its conversion to whole microseconds or
//! nanoseconds is stated.
use vstd::prelude::*;
use std::time::{Duration, Instant, SystemTime, UNIX_EPOCH};

verus! {

/// `std::time::Instant`, carried through opaque: nothing is known of its value.
#[verifier::external_type_specification]
#[verifier::external_body]
pub struct ExInstant(Instant);

/// `std::time::SystemTime`, carried through opaque: nothing is known of its value.
#[verifier::external_type_specification]
#[verifier::external_body]
pub struct ExSystemTime(SystemTime);

/// `SystemTime::now`: the wall clock now.
#[verifier::external_body]
fn system_now() -> SystemTime {
    SystemTime::now()
}

/// What `SystemTime::duration_since(UNIX_EPOCH)` gives for `t`, with its
/// error turned into `None`: how long after the Unix epoch `t` is, or `None`
/// for a time before it. It depends on `t` alone.
pub uninterp spec fn epoch_offset(t: SystemTime) -> Option<Duration>;

/// What `Duration::as_micros` gives for `d`: the whole microseconds in it.
pub uninterp spec fn whole_micros(d: Duration) -> u128;

/// What `Duration::as_nanos` gives for `d`: the whole nanoseconds in it.
pub uninterp spec fn whole_nanos(d: Duration) -> u128;

/// `SystemTime::duration_since(UNIX_EPOCH)`: how long after the Unix epoch
/// `t` is; `None` for a time before it. The contract claims only that the
/// result is the named `epoch_offset` of `t`.
#[verifier::external_body]
fn since_epoch(t: &SystemTime) -> (r: Option<Duration>)
    ensures
        r == epoch_offset(*t),
{
    t.duration_since(UNIX_EPOCH).ok()
}

/// `Duration::as_micros`: the whole microseconds of `d`. The contract claims
/// only that the result is the named `whole_micros` of `d`.
#[verifier::external_body]
fn duration_micros(d: &Duration) -> (r: u128)
    ensures
        r == whole_micros(*d),
{
    d.as_micros()
}

/// `Duration::as_nanos`: the whole nanoseconds of `d`. The contract claims
/// only that the result is the named `whole_nanos` of `d`.
#[verifier::external_body]
fn duration_nanos(d: &Duration) -> (r: u128)
    ensures
        r == whole_nanos(*d),
{
    d.as_nanos()
}

/// `Instant::now`: the monotonic clock now.
#[verifier::external_body]
pub(crate) fn monotonic_now() -> Instant {
    Instant::now()
}

/// `Instant::elapsed`: the time gone by since `start`.
#[verifier::external_body]
fn elapsed_since(start: &Instant) -> Duration {
    start.elapsed()
}

/// Microseconds since the Unix epoch of a wall-clock time, as a spec value:
/// the whole microseconds truncated to 64 bits; zero for a time before the
/// epoch.
pub open spec fn epoch_micros(t: SystemTime) -> u64 {
    match epoch_offset(t) {
        Some(d) => whole_micros(d) as u64,
        None => 0,
    }
}

/// Microseconds since the Unix epoch of a wall-clock time, truncated to 64
/// bits; zero for a time before the epoch.
pub(crate) fn system_time_to_micros(t: &SystemTime) -> (r: u64)
    ensures
        r == epoch_micros(*t),
{
    match since_epoch(t) {
        Some(d) => {
            let micros = duration_micros(&d);
            #[verifier::truncate]
            (micros as u64)
        },
        None => 0,
    }
}

/// Microseconds since the Unix epoch now: the `epoch_micros` of the wall
/// clock's reading, whichever it was.
pub(crate) fn wall_clock_micros() -> (r: u64)
    ensures
        exists|t: SystemTime| r == epoch_micros(t),
{
    let now = system_now();
    system_time_to_micros(&now)
}

/// Nanoseconds since the Unix epoch of a wall-clock time, as a spec value;
/// zero for a time before the epoch.
pub open spec fn epoch_nanos(t: SystemTime) -> u128 {
    match epoch_offset(t) {
        Some(d) => whole_nanos(d),
        None => 0,
    }
}

/// Nanoseconds since the Unix epoch of a wall-clock time; zero for a time
/// before the epoch.
pub(crate) fn system_time_to_nanos(t: &SystemTime) -> (r: u128)
    ensures
        r == epoch_nanos(*t),
{
    match since_epoch(t) {
        Some(d) => duration_nanos(&d),
        None => 0,
    }
}

/// Nanoseconds since the Unix epoch now: the `epoch_nanos` of the wall
/// clock's reading, whichever it was.
pub(crate) fn wall_clock_nanos() -> (r: u128)
    ensures
        exists|t: SystemTime| r == epoch_nanos(t),
{
    let now = system_now();
    system_time_to_nanos(&now)
}

/// Microseconds gone by since `start`, truncated to 64 bits: the whole
/// microseconds of the span that the monotonic clock measured, whichever it
/// was.
pub(crate) fn micros_since(start: &Instant) -> (r: u64)
    ensures
        exists|d: Duration| r == whole_micros(d) as u64,
{
    let d = elapsed_since(start);
    let micros = duration_micros(&d);
    #[verifier::truncate]
    (micros as u64)
}

} // verus!
