use vstd::prelude::*;

use crate::domain::date::Date;

verus! {

/// The byte that stands in the third place of an encoded range without end.
pub const NO_END: u8 = 128;

/// The key under which the ranges of `date` are kept: the year in the high
/// half, then the month from 0 and the day from 0, a byte each.
pub open spec fn spec_date_key(year: i32, month0: u32, day0: u32) -> u32 {
    ((year as u32) << 16u32) | (month0 << 8u32) | day0
}

/// A time of day as hour and minute; hour 24 and minute 60 are admitted.
#[derive(Debug, Clone, Copy, PartialEq, Eq, Structural)]
pub struct Time {
    hour: u8,
    minute: u8,
}

impl View for Time {
    /// Hour and minute.
    type V = (u8, u8);

    closed spec fn view(&self) -> (u8, u8) {
        (self.hour, self.minute)
    }
}

/// Why an hour or a minute was refused, with the value refused.
#[derive(Debug, Clone, Copy, PartialEq, Eq, Structural)]
pub enum TimeError {
    Hour(u8),
    Minute(u8),
}

/// Whether `hour` and `minute` make a time: hour up to 24, minute up to 60.
pub open spec fn valid_hm(hour: u8, minute: u8) -> bool {
    hour <= 24 && minute <= 60
}

impl Time {
    #[verifier::type_invariant]
    spec fn inv(self) -> bool {
        valid_hm(self.hour, self.minute)
    }

    /// Two times are the same value exactly when hour and minute agree.
    pub proof fn lemma_view_injective(a: Time, b: Time)
        ensures
            (a@ == b@) <==> (a == b),
    {
    }

    /// Makes a time; the hour is checked first, then the minute.
    pub fn new(hour: u8, minute: u8) -> (r: Result<Time, TimeError>)
        ensures
            hour > 24 ==> r == Err::<Time, TimeError>(TimeError::Hour(hour)),
            hour <= 24 && minute > 60 ==> r == Err::<Time, TimeError>(TimeError::Minute(minute)),
            valid_hm(hour, minute) ==> (r matches Ok(t) && t@ == (hour, minute)),
    {
        Self::validate_hour(hour)?;
        Self::validate_minute(minute)?;

        let t = Time { hour, minute };
        Ok(t)
    }

    pub fn hours(&self) -> (r: u8)
        ensures
            r == self@.0,
            r <= 24,
    {
        proof {
            use_type_invariant(self);
        }
        self.hour
    }

    pub fn minutes(&self) -> (r: u8)
        ensures
            r == self@.1,
            r <= 60,
    {
        proof {
            use_type_invariant(self);
        }
        self.minute
    }

    fn from_bytes(h: u8, m: u8) -> (r: Time)
        requires
            valid_hm(h, m),
        ensures
            r@ == (h, m),
    {
        match Self::new(h, m) {
            Ok(t) => t,
            Err(_) => {
                assert(false);
                Time { hour: 0, minute: 0 }
            },
        }
    }

    fn validate_hour(h: u8) -> (r: Result<(), TimeError>)
        ensures
            r == (if h <= 24 { Ok::<(), TimeError>(()) } else { Err(TimeError::Hour(h)) }),
    {
        Self::validate(h, 24, TimeError::Hour(h))
    }

    fn validate_minute(m: u8) -> (r: Result<(), TimeError>)
        ensures
            r == (if m <= 60 { Ok::<(), TimeError>(()) } else { Err(TimeError::Minute(m)) }),
    {
        Self::validate(m, 60, TimeError::Minute(m))
    }

    fn validate(v: u8, max: u8, err: TimeError) -> (r: Result<(), TimeError>)
        ensures
            r == (if v <= max { Ok::<(), TimeError>(()) } else { Err(err) }),
    {
        if v <= max {
            Ok(())
        } else {
            Err(err)
        }
    }
}

/// A range of time within a day, possibly without end.
#[derive(Debug, Clone, Copy, PartialEq, Eq, Structural)]
pub struct TimeRange {
    start: Time,
    end: Option<Time>,
}

/// The plain values of a range of time.
pub struct TimeRangeView {
    pub start: (u8, u8),
    pub end: Option<(u8, u8)>,
}

impl View for TimeRange {
    type V = TimeRangeView;

    closed spec fn view(&self) -> TimeRangeView {
        TimeRangeView {
            start: self.start@,
            end: match self.end {
                Some(t) => Some(t@),
                None => None,
            },
        }
    }
}

/// Whether hours and minutes of a range of time are within their bounds, as
/// they are in every `TimeRange`.
pub open spec fn valid_time_range(v: TimeRangeView) -> bool {
    &&& valid_hm(v.start.0, v.start.1)
    &&& v.end matches Some(e) ==> valid_hm(e.0, e.1)
}

/// Whether `data` is an encoding that `TimeRange::from_bytes` reads: empty,
/// or start hour and minute, then either the no-end marker or end hour and minute.
pub open spec fn decodable(data: Seq<u8>) -> bool {
    ||| data.len() == 0
    ||| {
        &&& data.len() >= 3
        &&& valid_hm(data[0], data[1])
        &&& (data[2] == NO_END || (data.len() >= 4 && valid_hm(data[2], data[3])))
    }
}

/// What `TimeRange::from_bytes` reads from `data`.
pub open spec fn spec_decode(data: Seq<u8>) -> TimeRangeView {
    if data.len() == 0 {
        TimeRangeView { start: (0, 0), end: None }
    } else {
        TimeRangeView {
            start: (data[0], data[1]),
            end: if data[2] == NO_END { None } else { Some((data[2], data[3])) },
        }
    }
}

/// The four bytes of a range of time.
pub open spec fn spec_encode(v: TimeRangeView) -> Seq<u8> {
    match v.end {
        None => seq![v.start.0, v.start.1, NO_END, 0u8],
        Some(e) => seq![v.start.0, v.start.1, e.0, e.1],
    }
}

impl TimeRange {
    /// Two ranges of time are the same value exactly when their plain values agree.
    pub proof fn lemma_view_injective(a: TimeRange, b: TimeRange)
        ensures
            (a@ == b@) <==> (a == b),
    {
        if a@ == b@ {
            Time::lemma_view_injective(a.start, b.start);
            if a.end is Some && b.end is Some {
                Time::lemma_view_injective(a.end->Some_0, b.end->Some_0);
            }
        }
    }

    pub fn new(start: Time, end: Option<Time>) -> (r: TimeRange)
        ensures
            r@ == (TimeRangeView {
                start: start@,
                end: match end {
                    Some(t) => Some(t@),
                    None => None,
                },
            }),
    {
        TimeRange { start, end }
    }

    pub fn start(&self) -> (r: Time)
        ensures
            r@ == self@.start,
    {
        self.start
    }

    pub fn end(&self) -> (r: Option<Time>)
        ensures
            match r {
                Some(t) => self@.end == Some(t@),
                None => self@.end is None,
            },
    {
        self.end
    }

    /// The number of bytes of an encoded range of time.
    pub fn fixed_width() -> (r: Option<usize>)
        ensures
            r == Some(4usize),
    {
        Some(4)
    }

    /// Reads a range of time from its bytes; no bytes read as `00:00` without end.
    pub fn from_bytes(data: &[u8]) -> (r: TimeRange)
        requires
            decodable(data@),
        ensures
            r@ == spec_decode(data@),
    {
        if data.len() == 0 {
            return TimeRange { start: Time::from_bytes(0, 0), end: None };
        }
        let start = Time::from_bytes(data[0], data[1]);
        let end = match data[2] {
            128 => None,
            v => Some(Time::from_bytes(v, data[3])),
        };
        TimeRange { start, end }
    }

    /// Reads a range of time from its bytes, or `None` when they are not an
    /// encoding of one.
    pub fn try_from_bytes(data: &[u8]) -> (r: Option<TimeRange>)
        ensures
            r is Some <==> decodable(data@),
            r matches Some(t) ==> t@ == spec_decode(data@),
    {
        let n = data.len();
        if n == 0 {
            return Some(TimeRange::from_bytes(data));
        }
        if n < 3 || data[0] > 24 || data[1] > 60 {
            return None;
        }
        if data[2] != NO_END && (n < 4 || data[2] > 24 || data[3] > 60) {
            return None;
        }
        Some(TimeRange::from_bytes(data))
    }

    /// The four bytes of the range: start hour and minute, then end hour and
    /// minute, or the no-end marker and a zero.
    pub fn as_bytes(&self) -> (r: [u8; 4])
        ensures
            r@ == spec_encode(self@),
            valid_time_range(self@),
    {
        match &self.end {
            None => [self.start.hours(), self.start.minutes(), 128, 0],
            Some(end) => [self.start.hours(), self.start.minutes(), end.hours(), end.minutes()],
        }
    }
}

/// The ranges of a day once `range` is stored: those stored before (none when
/// the day has no entry yet), then `range`.
pub fn append_time_range(found: Option<Vec<TimeRange>>, range: TimeRange) -> (r: Vec<TimeRange>)
    ensures
        r@ == match found {
            Some(v) => v@,
            None => Seq::<TimeRange>::empty(),
        }.push(range),
{
    let mut ranges = match found {
        Some(v) => v,
        None => Vec::with_capacity(1),
    };
    ranges.push(range);
    ranges
}

/// The key under which the ranges of `at` are kept.
pub fn date_to_key(at: &Date) -> (r: u32)
    ensures
        r == spec_date_key(at@.year as i32, (at@.month - 1) as u32, (at@.day - 1) as u32),
{
    let year = at.year() as u32;
    let month = at.month0();
    let day = at.day0();

    year << 16 | month << 8 | day
}

/// Encoding a range of time gives bytes that read back as the same range.
pub proof fn lemma_decode_encode(v: TimeRangeView)
    requires
        valid_time_range(v),
    ensures
        decodable(spec_encode(v)),
        spec_decode(spec_encode(v)) == v,
{
}

/// Four bytes that a range of time reads from, and that hold a zero after the
/// no-end marker, are exactly the bytes that the range encodes to.
pub proof fn lemma_encode_decode(data: Seq<u8>)
    requires
        data.len() == 4,
        decodable(data),
        data[2] == NO_END ==> data[3] == 0,
    ensures
        spec_encode(spec_decode(data)) == data,
{
    assert(spec_encode(spec_decode(data)) =~= data);
}

/// Different dates of years 0 to 65535 have different keys.
pub proof fn lemma_date_key_injective(y1: i32, m1: u32, d1: u32, y2: i32, m2: u32, d2: u32)
    requires
        0 <= y1 < 65536,
        0 <= y2 < 65536,
        m1 < 12,
        m2 < 12,
        d1 < 31,
        d2 < 31,
        spec_date_key(y1, m1, d1) == spec_date_key(y2, m2, d2),
    ensures
        y1 == y2 && m1 == m2 && d1 == d2,
{
    let a = y1 as u32;
    let b = y2 as u32;
    assert(a < 65536 && b < 65536 && m1 < 12 && m2 < 12 && d1 < 31 && d2 < 31 && ((a << 16u32) | (m1 << 8u32)
        | d1) == ((b << 16u32) | (m2 << 8u32) | d2) ==> a == b && m1 == m2 && d1 == d2) by (bit_vector);
}

} // verus!
