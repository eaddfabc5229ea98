use vstd::prelude::*;

verus! {

/// The earliest year of a calendar date.
pub const MIN_YEAR: i32 = -262143;

/// The latest year of a calendar date.
pub const MAX_YEAR: i32 = 262142;

/// Whether `y` is a leap year of the proleptic Gregorian calendar.
pub open spec fn is_leap_year(y: int) -> bool {
    y % 4 == 0 && (y % 100 != 0 || y % 400 == 0)
}

/// The number of days of month `m` (1 to 12) in year `y`.
pub open spec fn days_in_month(y: int, m: int) -> int {
    if m == 2 {
        if is_leap_year(y) { 29 } else { 28 }
    } else if m == 4 || m == 6 || m == 9 || m == 11 {
        30
    } else {
        31
    }
}

/// Whether `y-m-d` names an existing day within the supported years.
pub open spec fn valid_ymd(y: int, m: int, d: int) -> bool {
    &&& MIN_YEAR <= y <= MAX_YEAR
    &&& 1 <= m <= 12
    &&& 1 <= d <= days_in_month(y, m)
}

/// Asks chrono whether `NaiveDate::from_ymd_opt(year, month, day)` makes a date.
///
/// Claimed: it does exactly for the existing days of the proleptic Gregorian
/// calendar in the years `MIN_YEAR..=MAX_YEAR` (chrono's `MIN_YEAR` and `MAX_YEAR`).
#[verifier::external_body]
fn chrono_accepts_ymd(year: i32, month: u32, day: u32) -> (r: bool)
    ensures
        r == valid_ymd(year as int, month as int, day as int),
{
    chrono::NaiveDate::from_ymd_opt(year, month, day).is_some()
}

/// A calendar date: year, month (1 to 12) and day of month (from 1).
#[derive(Debug, Clone, Copy, PartialEq, Eq, Structural)]
pub struct Date {
    year: i32,
    month: u32,
    day: u32,
}

/// The plain values of a date.
pub struct DateView {
    pub year: int,
    pub month: int,
    pub day: int,
}

impl View for Date {
    type V = DateView;

    closed spec fn view(&self) -> DateView {
        DateView { year: self.year as int, month: self.month as int, day: self.day as int }
    }
}

impl Date {
    #[verifier::type_invariant]
    spec fn inv(self) -> bool {
        valid_ymd(self.year as int, self.month as int, self.day as int)
    }

    /// Two dates are the same value exactly when their year, month and day agree.
    pub proof fn lemma_view_injective(a: Date, b: Date)
        ensures
            (a@ == b@) <==> (a == b),
    {
    }

    /// Makes a date from year, month and day; `None` when no such day exists.
    pub fn from_ymd_opt(year: i32, month: u32, day: u32) -> (r: Option<Date>)
        ensures
            r is Some <==> valid_ymd(year as int, month as int, day as int),
            r matches Some(d) ==> d@ == (DateView {
                year: year as int,
                month: month as int,
                day: day as int,
            }),
    {
        if chrono_accepts_ymd(year, month, day) {
            Some(Date { year, month, day })
        } else {
            None
        }
    }

    /// The year; the date also names an existing day.
    pub fn year(&self) -> (r: i32)
        ensures
            r == self@.year,
            valid_ymd(self@.year, self@.month, self@.day),
    {
        proof {
            use_type_invariant(self);
        }
        self.year
    }

    /// The month, from 1 to 12.
    pub fn month(&self) -> (r: u32)
        ensures
            r == self@.month,
            1 <= r <= 12,
    {
        proof {
            use_type_invariant(self);
        }
        self.month
    }

    /// The day of the month, from 1.
    pub fn day(&self) -> (r: u32)
        ensures
            r == self@.day,
            1 <= r <= 31,
    {
        proof {
            use_type_invariant(self);
        }
        self.day
    }

    /// The month, from 0 to 11.
    pub fn month0(&self) -> (r: u32)
        ensures
            r == self@.month - 1,
    {
        proof {
            use_type_invariant(self);
        }
        self.month - 1
    }

    /// The day of the month, from 0.
    pub fn day0(&self) -> (r: u32)
        ensures
            r == self@.day - 1,
    {
        proof {
            use_type_invariant(self);
        }
        self.day - 1
    }
}

} // verus!
