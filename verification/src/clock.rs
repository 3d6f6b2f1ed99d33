//! The clock, and when a value expires.
use crate::error::CacheError;
use std::time::{Duration, SystemTimeError, UNIX_EPOCH};
use vstd::prelude::*;

verus! {

/// A reading of the clock: the whole seconds since the Unix epoch, or the error that says that
/// the clock stands before it.
pub type Reading = Result<u64, SystemTimeError>;

/// The whole seconds in a span of time: what `Duration::as_secs` answers.
pub uninterp spec fn duration_secs(span: Duration) -> u64;

/// `Duration::as_secs`: claimed to answer the whole seconds in the span.
pub assume_specification[ Duration::as_secs ](span: &Duration) -> (secs: u64)
    ensures
        secs == duration_secs(*span),
;

/// `Duration::from_millis`: claimed to give a span that holds one whole second for every thousand
/// milliseconds.
pub assume_specification[ Duration::from_millis ](millis: u64) -> (span: Duration)
    ensures
        duration_secs(span) == millis / 1000,
;

/// Calls `SystemTime::elapsed` on the Unix epoch, which is the current time measured from there.
/// Nothing is claimed of the answer: it depends on the clock.
#[verifier::external_body]
fn elapsed_since_epoch() -> Result<Duration, SystemTimeError> {
    UNIX_EPOCH.elapsed()
}

/// The reading that the time elapsed since the Unix epoch makes: its whole seconds, or the error if
/// the clock stands before the epoch.
pub open spec fn reading_of(elapsed: Result<Duration, SystemTimeError>) -> Reading {
    match elapsed {
        Ok(span) => Ok(duration_secs(span)),
        Err(err) => Err(err),
    }
}

/// Whether a time elapsed since the Unix epoch is one that the clock has answered: what a call of
/// `elapsed_since_epoch` returned.
pub closed spec fn answered(elapsed: Result<Duration, SystemTimeError>) -> bool {
    call_ensures(elapsed_since_epoch, (), elapsed)
}

/// Whether a reading is one that was made of the clock, and not any other.
pub open spec fn clock_shows(reading: Reading) -> bool {
    exists|elapsed: Result<Duration, SystemTimeError>| #[trigger]
        answered(elapsed) && reading == reading_of(elapsed)
}

/// Turns the time elapsed since the Unix epoch into a reading of the clock.
pub fn reading_from(elapsed: Result<Duration, SystemTimeError>) -> (reading: Reading)
    ensures
        reading == reading_of(elapsed),
{
    match elapsed {
        Ok(span) => Ok(span.as_secs()),
        Err(err) => Err(err),
    }
}

/// Reads the clock. What it shows is not known beforehand; the result is the reading that the
/// elapsed time makes which the clock answered.
pub(crate) fn read_clock() -> (reading: Reading)
    ensures
        clock_shows(reading),
{
    let elapsed = elapsed_since_epoch();
    assert(answered(elapsed));
    reading_from(elapsed)
}

/// Whether a value that expires at `expiry` has expired when the clock shows `now`. Before the Unix
/// epoch every value counts as expired. After it, one without a time of expiration never does.
pub open spec fn expired_at(expiry: Option<i64>, now: Reading) -> bool {
    match now {
        Err(_) => true,
        Ok(secs) => match expiry {
            Some(expiration) => secs as i64 > expiration,
            None => false,
        },
    }
}

/// The time of expiration of a value that is stored when the clock shows `now`. The current time
/// plus the time to live must be less than 2^63 - 1 seconds.
pub open spec fn expiry_secs(ttl: Option<Duration>, now: Reading) -> Result<
    Option<i64>,
    CacheError,
> {
    match now {
        Err(err) => Err(CacheError::SystemTimeError(err)),
        Ok(secs) => match ttl {
            None => Ok(None),
            Some(span) => if secs + duration_secs(span) >= i64::MAX {
                Err(CacheError::TtlValueOverflow)
            } else {
                Ok(Some((secs + duration_secs(span)) as i64))
            },
        },
    }
}

/// Whether the time of expiration, in seconds, has passed when the clock shows `now`. If the clock
/// stands before the Unix epoch, it has.
pub fn expired_by(expiry_secs: Option<i64>, now: &Reading) -> (result: bool)
    ensures
        result == expired_at(expiry_secs, *now),
        *now is Err ==> result,
        *now is Ok && expiry_secs is None ==> !result,
{
    match now {
        Ok(secs) => match expiry_secs {
            Some(expiration) => *secs as i64 > expiration,
            None => false,
        },
        Err(_) => true,
    }
}

/// True if the given time of expiration, in seconds, has passed. If the system time is before the
/// Unix epoch, it will return true.
pub fn expired(expiry_secs: Option<i64>) -> (result: bool)
    ensures
        exists|now: Reading|
            {
                &&& clock_shows(now)
                &&& result == #[trigger] expired_at(expiry_secs, now)
                &&& now is Err ==> result
                &&& now is Ok && expiry_secs is None ==> !result
            },
{
    let now = read_clock();
    let result = expired_by(expiry_secs, &now);
    assert(result == expired_at(expiry_secs, now));
    result
}

/// Calculates the time of expiration in seconds for a value that is stored when the clock shows
/// `now`.
pub fn expiry_from(ttl: Option<Duration>, now: Reading) -> (result: Result<Option<i64>, CacheError>)
    ensures
        result == expiry_secs(ttl, now),
{
    match now {
        Err(err) => Err(CacheError::from(err)),
        Ok(secs) => match ttl {
            None => Ok(None),
            Some(span) => match secs.checked_add(span.as_secs()) {
                Some(sum) => if sum >= i64::MAX as u64 {
                    Err(CacheError::TtlValueOverflow)
                } else {
                    Ok(Some(sum as i64))
                },
                None => Err(CacheError::TtlValueOverflow),
            },
        },
    }
}

/// Calculates the time of expiration in seconds, counted from now.
pub fn calculate_expiry_secs(ttl: Option<Duration>) -> (result: Result<Option<i64>, CacheError>)
    ensures
        exists|now: Reading|
            clock_shows(now) && result == #[trigger] expiry_secs(ttl, now),
{
    let now = read_clock();
    let ghost reading = now;
    let result = expiry_from(ttl, now);
    assert(result == expiry_secs(ttl, reading));
    result
}

/// Data structure representing a cache entry in the memory layer, time of expiration included.
#[derive(Debug, Clone)]
pub struct CacheData {
    /// The stored bytes.
    pub data: Vec<u8>,
    /// The time of expiration in seconds since the Unix epoch, if there is one.
    pub expires: Option<i64>,
}

impl View for CacheData {
    type V = (Seq<u8>, Option<i64>);

    open spec fn view(&self) -> (Seq<u8>, Option<i64>) {
        (self.data@, self.expires)
    }
}

impl CacheData {
    /// True if the entry has expired. If the system time is before the Unix epoch, it will return
    /// true.
    pub fn expired(&self) -> (result: bool)
        ensures
            exists|now: Reading|
                {
                    &&& clock_shows(now)
                    &&& result == #[trigger] expired_at(self.expires, now)
                    &&& now is Err ==> result
                    &&& now is Ok && self.expires is None ==> !result
                },
    {
        expired(self.expires)
    }
}

} // verus!
