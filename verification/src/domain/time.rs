use vstd::prelude::*;

verus! {

/// Number of seconds in a minute.
pub const SECONDS_PER_MINUTE: u32 = 60;

/// Number of seconds in an hour.
pub const SECONDS_PER_HOUR: u32 = 3600;

/// Number of seconds in a day.
pub const SECONDS_PER_DAY: u32 = 86400;

/// A time (hour, minute, and second) within a single day.
/// Represented as a number of seconds from the beginning of the day.
#[derive(Debug, Clone, Copy, PartialEq, Eq, Structural, PartialOrd)]
pub struct Time(u32);

impl View for Time {
    type V = nat;

    /// The number of seconds since the beginning of the day.
    closed spec fn view(&self) -> nat {
        self.0 as nat
    }
}

/// Error of `Time::new`: the offset is not within a day.
#[derive(Debug, Clone, Copy, PartialEq, Eq, Structural)]
pub struct SecondsError;

/// Error of `Time::from_hms`: which component is out of its range.
#[derive(Debug, Clone, Copy, PartialEq, Eq, Structural)]
pub enum TimeError {
    Hours,
    Minutes,
    Seconds,
}

/// The number of seconds of `h:m:s` since the beginning of the day.
pub open spec fn hms_seconds(h: int, m: int, s: int) -> int {
    h * SECONDS_PER_HOUR + m * SECONDS_PER_MINUTE + s
}

/// What `Time::from_hms` answers: the first component out of range is reported.
pub open spec fn spec_from_hms(h: u32, m: u32, s: u32) -> Result<nat, TimeError> {
    if h > 23 {
        Err(TimeError::Hours)
    } else if m > 59 {
        Err(TimeError::Minutes)
    } else if s > 59 {
        Err(TimeError::Seconds)
    } else {
        Ok(hms_seconds(h as int, m as int, s as int) as nat)
    }
}

impl Time {
    /// Two times are the same value exactly when they have the same number of seconds.
    pub proof fn lemma_view_injective(a: Time, b: Time)
        ensures
            (a@ == b@) <==> (a == b),
    {
    }

    /// The beginning of the day.
    pub fn min_time() -> (r: Time)
        ensures
            r@ == 0,
    {
        Time(0)
    }

    /// One past the last second of the day; the end of a range that is not closed.
    pub fn max_time() -> (r: Time)
        ensures
            r@ == SECONDS_PER_DAY,
    {
        Time(SECONDS_PER_DAY)
    }

    /// Creates a new `Time` from offset from the beginning of the day in seconds.
    ///
    /// Returns an error if got more than maximum seconds in a day.
    pub fn new(seconds: u32) -> (r: Result<Time, SecondsError>)
        ensures
            r is Ok <==> seconds < SECONDS_PER_DAY,
            r matches Ok(t) ==> t@ == seconds,
    {
        if seconds >= SECONDS_PER_DAY {
            return Err(SecondsError);
        }
        Ok(Time(seconds))
    }

    /// Creates a new `Time` from the given hours, minutes, and seconds.
    ///
    /// Returns an error on invalid amount of hours, minutes, or seconds,
    /// checked in that order.
    pub fn from_hms(h: u32, m: u32, s: u32) -> (r: Result<Time, TimeError>)
        ensures
            match (r, spec_from_hms(h, m, s)) {
                (Ok(t), Ok(secs)) => t@ == secs,
                (Err(e1), Err(e2)) => e1 == e2,
                _ => false,
            },
    {
        Self::validate(h, 23, TimeError::Hours)?;
        Self::validate(m, 59, TimeError::Minutes)?;
        Self::validate(s, 59, TimeError::Seconds)?;

        let seconds = h * SECONDS_PER_HOUR + m * SECONDS_PER_MINUTE + s;
        Ok(Time(seconds))
    }

    /// The number of seconds since the beginning of the day.
    pub fn seconds(&self) -> (r: u32)
        ensures
            r == self@,
    {
        self.0
    }

    fn validate(x: u32, max: u32, err: TimeError) -> (r: Result<(), TimeError>)
        ensures
            r == (if x > max { Err(err) } else { Ok::<(), TimeError>(()) }),
    {
        if x > max {
            return Err(err);
        }
        Ok(())
    }
}

impl TimeError {
    /// The message that describes the error.
    pub fn to_string(&self) -> (r: String)
        ensures
            r@ == match *self {
                TimeError::Hours => "hours should be in [0..23]"@,
                TimeError::Minutes => "minutes should be in [0..59]"@,
                TimeError::Seconds => "seconds should be in [0..59]"@,
            },
    {
        match self {
            TimeError::Hours => "hours should be in [0..23]".to_owned(),
            TimeError::Minutes => "minutes should be in [0..59]".to_owned(),
            TimeError::Seconds => "seconds should be in [0..59]".to_owned(),
        }
    }
}

impl SecondsError {
    /// The message that describes the error.
    pub fn to_string(&self) -> (r: String)
        ensures
            r@ == "exceeds the max number of seconds per day"@,
    {
        "exceeds the max number of seconds per day".to_owned()
    }
}

/// Every time built from hours, minutes and seconds lies within the day, and
/// is the time of that many seconds.
pub proof fn lemma_from_hms_within_day(h: u32, m: u32, s: u32)
    requires
        spec_from_hms(h, m, s) is Ok,
    ensures
        spec_from_hms(h, m, s)->Ok_0 < SECONDS_PER_DAY,
        spec_from_hms(h, m, s)->Ok_0 == hms_seconds(h as int, m as int, s as int),
{
}

} // verus!
