//! UTC time, read from the system clock through `chrono` and held as plain integers.
use vstd::prelude::*;
use chrono::{DateTime, Utc};
use std::time::{SystemTime, UNIX_EPOCH};
use crate::error::{other_error, ErrorKind, ObsError};

verus! {

/// A UTC instant: whole seconds since the Unix epoch and the nanoseconds past them.
#[derive(Clone, Copy, Debug, PartialEq, Eq, Structural)]
pub struct UtcInstant {
    pub seconds: i64,
    pub nanos: u32,
}

pub const CLOCK_OUT_OF_RANGE: &'static str = "UTC time is outside the supported nanosecond range";

/// The system clock, as `std::time::SystemTime`.
#[verifier::external_type_specification]
#[verifier::external_body]
pub struct ExSystemTime(SystemTime);

pub const CLOCK_BEFORE_EPOCH: &'static str = "system time before Unix epoch";

pub const CLOCK_UNREPRESENTABLE: &'static str = "system time is outside the dates that chrono represents";

/// The system clock's reading, from `std::time::SystemTime::now`. Nothing is known
/// of it: it is whatever the machine's clock says.
#[verifier::external_body]
fn system_now() -> SystemTime {
    SystemTime::now()
}

/// How far `time` lies after the Unix epoch, from `SystemTime::duration_since` with
/// `UNIX_EPOCH`, as the `Duration`'s whole seconds (`as_secs`) and the nanoseconds
/// past them (`subsec_nanos`, below one second); `None` when `time` lies before the
/// epoch, where `duration_since` returns an error.
#[verifier::external_body]
fn since_unix_epoch(time: &SystemTime) -> (since: Option<(u64, u32)>)
    ensures
        match since {
            Some((_, nanos)) => nanos < 1_000_000_000,
            None => true,
        },
{
    match time.duration_since(UNIX_EPOCH) {
        Ok(duration) => Some((duration.as_secs(), duration.subsec_nanos())),
        Err(_) => None,
    }
}

/// The instant `seconds` and `nanos` as `chrono::DateTime::<Utc>::from_timestamp`
/// makes it, read back by `timestamp` and `timestamp_subsec_nanos`: `from_timestamp`
/// returns `None` outside the instants chrono represents, and what it returns reads
/// back as the seconds and nanoseconds it was made from.
#[verifier::external_body]
fn utc_from_timestamp(seconds: i64, nanos: u32) -> (instant: Option<UtcInstant>)
    ensures
        instant == (if chrono_representable(UtcInstant { seconds, nanos }) {
            Some(UtcInstant { seconds, nanos })
        } else {
            None
        }),
{
    match DateTime::<Utc>::from_timestamp(seconds, nanos) {
        Some(value) => Some(UtcInstant { seconds: value.timestamp(), nanos: value.timestamp_subsec_nanos() }),
        None => None,
    }
}

/// The UTC instant of a clock reading `since`: the seconds and nanoseconds past the
/// Unix epoch, or `None` for a clock set before it. An error of kind `Other` for a
/// clock before the epoch, or for a reading that no `i64` of seconds holds or that
/// chrono does not represent.
pub fn clock_instant(since: Option<(u64, u32)>) -> (result: Result<UtcInstant, ObsError>)
    ensures
        match since {
            None => match result {
                Ok(_) => false,
                Err(e) => e.is(ErrorKind::Other, CLOCK_BEFORE_EPOCH@),
            },
            Some((seconds, nanos)) => if seconds <= i64::MAX && chrono_representable(
                UtcInstant { seconds: seconds as i64, nanos },
            ) {
                match result {
                    Ok(instant) => instant == (UtcInstant { seconds: seconds as i64, nanos }),
                    Err(_) => false,
                }
            } else {
                match result {
                    Ok(_) => false,
                    Err(e) => e.is(ErrorKind::Other, CLOCK_UNREPRESENTABLE@),
                }
            },
        },
{
    match since {
        None => Err(other_error(CLOCK_BEFORE_EPOCH)),
        Some((seconds, nanos)) => {
            if seconds > i64::MAX as u64 {
                return Err(other_error(CLOCK_UNREPRESENTABLE));
            }
            match utc_from_timestamp(seconds as i64, nanos) {
                Some(instant) => Ok(instant),
                None => Err(other_error(CLOCK_UNREPRESENTABLE)),
            }
        },
    }
}

/// The current UTC time; an error of kind `Other` when the system clock stands
/// before the Unix epoch or past the dates chrono represents.
pub fn now() -> (result: Result<UtcInstant, ObsError>)
    ensures
        match result {
            Ok(now) => clock_reading(now),
            Err(e) => e.is(ErrorKind::Other, CLOCK_BEFORE_EPOCH@) || e.is(
                ErrorKind::Other,
                CLOCK_UNREPRESENTABLE@,
            ),
        },
{
    let time = system_now();
    clock_instant(since_unix_epoch(&time))
}

/// The instants that `chrono::DateTime::from_timestamp` accepts: dates from
/// January 1 of year -262143 to December 31 of year 262142 (chrono's
/// `NaiveDate::MIN` and `NaiveDate::MAX`), and nanoseconds below one second, or
/// below two seconds in the last second of a minute (a leap second).
pub open spec fn chrono_representable(instant: UtcInstant) -> bool {
    &&& -8_334_601_228_800 <= instant.seconds <= 8_210_266_876_799
    &&& (instant.nanos < 1_000_000_000 || (instant.nanos < 2_000_000_000 && instant.seconds % 60
        == 59))
}

/// The text that `chrono` writes for the instant in the format
/// `%Y-%m-%dT%H:%M:%S%.3f`.
pub uninterp spec fn chrono_fits_datetime(seconds: i64, nanos: u32) -> Seq<char>;

/// The FITS date of `instant`: `chrono::DateTime::from_timestamp` of its seconds and
/// nanoseconds, formatted by `chrono` as `%Y-%m-%dT%H:%M:%S%.3f` (such as
/// `2024-05-01T12:00:00.250`). The text is named, not stated: it is `chrono`'s
/// calendar arithmetic.
#[verifier::external_body]
pub fn fits_datetime(instant: UtcInstant) -> (text: String)
    requires
        chrono_representable(instant),
    ensures
        text@ == chrono_fits_datetime(instant.seconds, instant.nanos),
{
    let value = DateTime::<Utc>::from_timestamp(instant.seconds, instant.nanos).expect(
        "a representable instant",
    );
    value.format("%Y-%m-%dT%H:%M:%S%.3f").to_string()
}

/// The nanoseconds since the Unix epoch of `instant`.
pub open spec fn instant_nanos(instant: UtcInstant) -> int {
    instant.seconds * 1_000_000_000 + instant.nanos
}

/// The nanoseconds since the Unix epoch of `instant`, when an `i64` holds them (as
/// `chrono`'s `timestamp_nanos_opt` gives them: from 1677 to 2262).
pub fn unix_nanoseconds(instant: UtcInstant) -> (nanos: Option<i64>)
    ensures
        match nanos {
            Some(n) => n == instant_nanos(instant),
            None => !(i64::MIN <= instant_nanos(instant) <= i64::MAX),
        },
{
    let total: i128 = (instant.seconds as i128) * 1_000_000_000i128 + (instant.nanos as i128);
    if total < i64::MIN as i128 || total > i64::MAX as i128 {
        None
    } else {
        Some(total as i64)
    }
}

/// An instant that the clock can read: not before the Unix epoch, with nanoseconds
/// below one second, and one that `chrono` represents.
pub open spec fn clock_reading(instant: UtcInstant) -> bool {
    &&& instant.seconds >= 0
    &&& instant.nanos < 1_000_000_000
    &&& chrono_representable(instant)
}

/// The current time in nanoseconds since the Unix epoch: an error of kind `Other`
/// when the clock cannot be read as a UTC instant (see `now`), or when its
/// nanoseconds do not fit an `i64`. Which instant the clock reads is not known: the
/// result is the nanoseconds of some clock reading, and the range error comes only
/// for a reading past the `i64` range (after the year 2262).
pub fn unix_nanoseconds_now() -> (result: Result<i64, ObsError>)
    ensures
        match result {
            Ok(n) => {
                &&& n >= 0
                &&& exists|t: UtcInstant|
                    #![trigger instant_nanos(t)]
                    clock_reading(t) && n == instant_nanos(t)
            },
            Err(e) => {
                ||| e.is(ErrorKind::Other, CLOCK_BEFORE_EPOCH@)
                ||| e.is(ErrorKind::Other, CLOCK_UNREPRESENTABLE@)
                ||| {
                    &&& e.is(ErrorKind::Other, CLOCK_OUT_OF_RANGE@)
                    &&& exists|t: UtcInstant|
                        #![trigger instant_nanos(t)]
                        clock_reading(t) && instant_nanos(t) > i64::MAX
                }
            },
        },
{
    let reading = match now() {
        Ok(reading) => reading,
        Err(e) => return Err(e),
    };
    let ghost total = instant_nanos(reading);
    match unix_nanoseconds(reading) {
        Some(n) => Ok(n),
        None => {
            assert(total > i64::MAX);
            Err(other_error(CLOCK_OUT_OF_RANGE))
        },
    }
}

} // verus!
