use vstd::prelude::*;

use crate::domain::date::Date;
use crate::domain::range::{is_v7_id, Range, RangeView};
use crate::domain::time::{spec_from_hms, Time, TimeError};

verus! {

/// A time of day as sent in a request: hour, minute and seconds.
#[derive(Debug, Clone, Copy, PartialEq, Eq, Structural)]
pub struct CreateRangeTime {
    pub hour: u32,
    pub minute: u32,
    pub seconds: u32,
}

/// A request to create a range on `date`.
#[derive(Debug, Clone, Copy, PartialEq, Eq, Structural)]
pub struct CreateRangeRequest {
    pub date: Date,
    pub start: CreateRangeTime,
    pub end: Option<CreateRangeTime>,
}

/// A request to replace a stored range by one on `day`.
#[derive(Debug, Clone, Copy, PartialEq, Eq, Structural)]
pub struct UpdateRangeRequest {
    pub day: Date,
    pub start: CreateRangeTime,
    pub end: Option<CreateRangeTime>,
}

/// The seconds of a requested time, or why it is not a time.
pub open spec fn spec_request_time(t: CreateRangeTime) -> Result<nat, TimeError> {
    spec_from_hms(t.hour, t.minute, t.seconds)
}

/// The seconds of the start and of the end (if any) of a requested range, or
/// the error of the first invalid one, the start being checked first.
pub open spec fn spec_request_times(start: CreateRangeTime, end: Option<CreateRangeTime>) -> Result<
    (nat, Option<nat>),
    TimeError,
> {
    match spec_request_time(start) {
        Err(e) => Err(e),
        Ok(s) => match end {
            None => Ok((s, None)),
            Some(e) => match spec_request_time(e) {
                Err(err) => Err(err),
                Ok(t) => Ok((s, Some(t))),
            },
        },
    }
}

/// The seconds of the end of a range, if it has one.
pub open spec fn end_seconds(end: Option<Time>) -> Option<nat> {
    match end {
        Some(t) => Some(t@),
        None => None,
    }
}

/// Whether `r` is the range of id `id` on `day` with the times of `times`.
pub open spec fn range_has_times(r: RangeView, id: u128, day: Date, times: (nat, Option<nat>)) -> bool {
    &&& r.id == id
    &&& r.day == day
    &&& r.start@ == times.0
    &&& end_seconds(r.end) == times.1
}

impl CreateRangeTime {
    pub fn new(hour: u32, minute: u32, seconds: u32) -> (r: CreateRangeTime)
        ensures
            r == (CreateRangeTime { hour, minute, seconds }),
    {
        CreateRangeTime { hour, minute, seconds }
    }

    /// The requested time of day.
    pub fn to_time(&self) -> (r: Result<Time, TimeError>)
        ensures
            match (r, spec_request_time(*self)) {
                (Ok(t), Ok(s)) => t@ == s,
                (Err(e1), Err(e2)) => e1 == e2,
                _ => false,
            },
    {
        Time::from_hms(self.hour, self.minute, self.seconds)
    }
}

/// Builds the range of id `id` on `day` from requested start and end times.
fn range_from_parts(id: u128, day: Date, start: &CreateRangeTime, end: &Option<CreateRangeTime>) -> (r: Result<
    Range,
    TimeError,
>)
    ensures
        match (r, spec_request_times(*start, *end)) {
            (Ok(range), Ok(times)) => range_has_times(range@, id, day, times),
            (Err(e1), Err(e2)) => e1 == e2,
            _ => false,
        },
{
    let s = start.to_time()?;
    let e = match end {
        None => None,
        Some(x) => Some(x.to_time()?),
    };
    Ok(Range::new_with_id(id, day, s, e))
}

impl CreateRangeRequest {
    pub fn new(date: Date, start: CreateRangeTime, end: Option<CreateRangeTime>) -> (r: CreateRangeRequest)
        ensures
            r == (CreateRangeRequest { date, start, end }),
    {
        CreateRangeRequest { date, start, end }
    }

    /// The requested range, with the given id.
    pub fn to_range_with_id(&self, id: u128) -> (r: Result<Range, TimeError>)
        ensures
            match (r, spec_request_times(self.start, self.end)) {
                (Ok(range), Ok(times)) => range_has_times(range@, id, self.date, times),
                (Err(e1), Err(e2)) => e1 == e2,
                _ => false,
            },
    {
        range_from_parts(id, self.date, &self.start, &self.end)
    }

    /// The requested range, with a fresh version 7 id.
    pub fn to_range(&self) -> (r: Result<Range, TimeError>)
        ensures
            match (r, spec_request_times(self.start, self.end)) {
                (Ok(range), Ok(times)) => range_has_times(range@, range@.id, self.date, times) && is_v7_id(
                    range@.id,
                ),
                (Err(e1), Err(e2)) => e1 == e2,
                _ => false,
            },
    {
        let s = self.start.to_time()?;
        let e = match &self.end {
            None => None,
            Some(x) => Some(x.to_time()?),
        };
        Ok(Range::new(self.date, s, e))
    }
}

impl UpdateRangeRequest {
    pub fn new(day: Date, start: CreateRangeTime, end: Option<CreateRangeTime>) -> (r: UpdateRangeRequest)
        ensures
            r == (UpdateRangeRequest { day, start, end }),
    {
        UpdateRangeRequest { day, start, end }
    }

    /// The range that replaces the stored range of id `id`.
    pub fn to_range(&self, id: u128) -> (r: Result<Range, TimeError>)
        ensures
            match (r, spec_request_times(self.start, self.end)) {
                (Ok(range), Ok(times)) => range_has_times(range@, id, self.day, times),
                (Err(e1), Err(e2)) => e1 == e2,
                _ => false,
            },
    {
        range_from_parts(id, self.day, &self.start, &self.end)
    }
}

/// A requested range is accepted exactly when every component of its start,
/// and of its end if it has one, is in range (hours to 23, minutes and seconds
/// to 59); the start's components are checked first, then the end's, each in
/// the order hours, minutes, seconds. Start and end are then both
/// `hour * 3600 + minute * 60 + seconds`.
pub proof fn lemma_request_times_meaning(start: CreateRangeTime, end: Option<CreateRangeTime>)
    ensures
        start.hour > 23 ==> spec_request_times(start, end) == Err::<(nat, Option<nat>), TimeError>(
            TimeError::Hours,
        ),
        start.hour <= 23 && start.minute > 59 ==> spec_request_times(start, end) == Err::<
            (nat, Option<nat>),
            TimeError,
        >(TimeError::Minutes),
        start.hour <= 23 && start.minute <= 59 && start.seconds > 59 ==> spec_request_times(start, end)
            == Err::<(nat, Option<nat>), TimeError>(TimeError::Seconds),
        start.hour <= 23 && start.minute <= 59 && start.seconds <= 59 && end is None ==> spec_request_times(
            start,
            end,
        ) == Ok::<(nat, Option<nat>), TimeError>(
            ((start.hour * 3600 + start.minute * 60 + start.seconds) as nat, None),
        ),
        start.hour <= 23 && start.minute <= 59 && start.seconds <= 59 && end is Some ==> {
            let e = end->Some_0;
            &&& e.hour > 23 ==> spec_request_times(start, end) == Err::<(nat, Option<nat>), TimeError>(
                TimeError::Hours,
            )
            &&& e.hour <= 23 && e.minute > 59 ==> spec_request_times(start, end) == Err::<
                (nat, Option<nat>),
                TimeError,
            >(TimeError::Minutes)
            &&& e.hour <= 23 && e.minute <= 59 && e.seconds > 59 ==> spec_request_times(start, end) == Err::<
                (nat, Option<nat>),
                TimeError,
            >(TimeError::Seconds)
            &&& e.hour <= 23 && e.minute <= 59 && e.seconds <= 59 ==> spec_request_times(start, end) == Ok::<
                (nat, Option<nat>),
                TimeError,
            >(
                (
                    (start.hour * 3600 + start.minute * 60 + start.seconds) as nat,
                    Some((e.hour * 3600 + e.minute * 60 + e.seconds) as nat),
                ),
            )
        },
{
}

} // verus!
