use crate::digits::{i64_text, int_text, parse_i64, parse_i64_spec};
use crate::fault::{Fault, FieldError};
use crate::text::{chars_of, string_of};
use time::OffsetDateTime;
use vstd::prelude::*;
use vstd::string::StringExecFns;

verus! {

/// The earliest time a trade can bear: 3 January 2009, 00:00:00 UTC.
pub const MIN_TIMESTAMP: i64 = 1_231_027_200;

/// The latest time that can be told as a date: 31 December 9999, 23:59:59 UTC.
pub const MAX_TIMESTAMP: i64 = 253_402_300_799;

/// The time of a trade, as seconds since the epoch, where it is acceptable at
/// the time `now`: not before the minimum, before `now`, and a date that can
/// be told.
pub open spec fn check_time(ts: int, now: int) -> Result<int, Fault> {
    if ts < MIN_TIMESTAMP {
        Err(Fault::BeforeMinimum)
    } else if ts >= now {
        Err(Fault::InFuture)
    } else if ts > MAX_TIMESTAMP {
        Err(Fault::OutOfRange)
    } else {
        Ok(ts)
    }
}

/// The time that a text tells, where it is an integer and acceptable at `now`.
pub open spec fn check_timestamp(text: Seq<char>, now: int) -> Result<int, Fault> {
    match parse_i64_spec(text) {
        None => Err(Fault::NotAnInteger),
        Some(ts) => check_time(ts as int, now),
    }
}

/// A time is accepted exactly from the minimum on and before `now`, as long
/// as it can be told as a date: the minimum itself is accepted, the second
/// before it is not, and neither is `now` or anything later.
pub proof fn lemma_timestamp_boundary(ts: int, now: int)
    ensures
        check_time(ts, now) is Ok <==> MIN_TIMESTAMP <= ts < now && ts <= MAX_TIMESTAMP,
        MIN_TIMESTAMP < now ==> check_time(MIN_TIMESTAMP as int, now) is Ok,
        check_time(MIN_TIMESTAMP - 1, now) == Err::<int, Fault>(Fault::BeforeMinimum),
        MIN_TIMESTAMP <= now <= ts ==> check_time(ts, now) == Err::<int, Fault>(Fault::InFuture),
{
}

/// `OffsetDateTime::now_utc` and `unix_timestamp` of it: the seconds since
/// the epoch by this machine's clock. Nothing is known of the number.
#[verifier::external_body]
pub(crate) fn unix_now() -> i64 {
    OffsetDateTime::now_utc().unix_timestamp()
}

/// `OffsetDateTime::from_unix_timestamp` succeeds on a time after the epoch
/// exactly up to the last second of the year 9999.
#[verifier::external_body]
pub(crate) fn is_date(ts: i64) -> (r: bool)
    requires
        ts >= 0,
    ensures
        r == (ts <= MAX_TIMESTAMP),
{
    OffsetDateTime::from_unix_timestamp(ts).is_ok()
}

/// Checks a time against the current time `now`.
pub fn validate(ts: i64, now: i64) -> (r: Result<i64, Fault>)
    ensures
        match r {
            Ok(t) => t == ts && check_time(ts as int, now as int) == Ok::<int, Fault>(ts as int),
            Err(f) => check_time(ts as int, now as int) == Err::<int, Fault>(f),
        },
{
    if ts < MIN_TIMESTAMP {
        Err(Fault::BeforeMinimum)
    } else if ts >= now {
        Err(Fault::InFuture)
    } else if !is_date(ts) {
        Err(Fault::OutOfRange)
    } else {
        Ok(ts)
    }
}

/// Writes a time as the integer of its seconds since the epoch.
pub fn serialize(ts: i64) -> (r: String)
    ensures
        r@ == int_text(ts as int),
{
    string_of(&i64_text(ts))
}

/// Reads a time from the integer of its seconds since the epoch and checks
/// it against the current time `now`.
pub fn deserialize(text: &str, now: i64) -> (r: Result<i64, FieldError>)
    ensures
        match r {
            Ok(ts) => check_timestamp(text@, now as int) == Ok::<int, Fault>(ts as int),
            Err(e) => check_timestamp(text@, now as int) == Err::<int, Fault>(e.fault) && e.text@
                == text@,
        },
{
    match parse_i64(&chars_of(text)) {
        None => Err(FieldError { fault: Fault::NotAnInteger, text: String::from_str(text) }),
        Some(ts) => match validate(ts, now) {
            Ok(t) => Ok(t),
            Err(fault) => Err(FieldError { fault, text: String::from_str(text) }),
        },
    }
}

/// Reads a time as `deserialize` does, against this machine's clock.
pub fn deserialize_now(text: &str) -> (r: Result<i64, FieldError>)
    ensures
        match r {
            Ok(ts) => exists|now: i64| check_timestamp(text@, now as int) == Ok::<int, Fault>(ts as int),
            Err(e) => e.text@ == text@ && exists|now: i64|
                check_timestamp(text@, now as int) == Err::<int, Fault>(e.fault),
        },
{
    let now = unix_now();
    deserialize(text, now)
}

} // verus!
