use vstd::prelude::*;

use crate::domain::date::Date;
use crate::domain::time::{Time, SECONDS_PER_DAY};

verus! {

/// Asks uuid for a fresh version 7 UUID (`Uuid::now_v7`), as its 128-bit value.
///
/// Claimed: the version field (bits 76 to 79) holds 7 and the variant field
/// (bits 62 and 63) holds 0b10, as `encode_unix_timestamp_millis` sets them.
/// The rest depends on the clock and on random bytes and is not stated.
#[verifier::external_body]
fn new_v7_id() -> (id: u128)
    ensures
        (id >> 76u128) & 0xfu128 == 7,
        (id >> 62u128) & 0x3u128 == 2,
{
    uuid::Uuid::now_v7().as_u128()
}

/// Whether `id` carries the version and variant fields of a version 7 UUID.
pub open spec fn is_v7_id(id: u128) -> bool {
    &&& (id >> 76u128) & 0xfu128 == 7
    &&& (id >> 62u128) & 0x3u128 == 2
}

/// A time range.
///
/// Each range lies inside a single day and might be without end.
#[derive(Debug, Clone, Copy, PartialEq, Eq, Structural)]
pub struct Range {
    id: u128,
    day: Date,
    start: Time,
    end: Option<Time>,
}

/// The plain values of a range.
pub struct RangeView {
    pub id: u128,
    pub day: Date,
    pub start: Time,
    pub end: Option<Time>,
}

impl View for Range {
    type V = RangeView;

    closed spec fn view(&self) -> RangeView {
        RangeView { id: self.id, day: self.day, start: self.start, end: self.end }
    }
}

/// Where a range stops: its end, or the end of the day when it is not closed.
pub open spec fn end_or_max(end: Option<Time>) -> nat {
    match end {
        Some(t) => t@,
        None => SECONDS_PER_DAY as nat,
    }
}

/// Two ranges intersect when they lie on the same day and share some second:
/// each starts before the other stops.
pub open spec fn spec_intersects(a: RangeView, b: RangeView) -> bool {
    &&& a.day == b.day
    &&& a.start@ < end_or_max(b.end)
    &&& b.start@ < end_or_max(a.end)
}

/// Whether `r` intersects some range of `ranges` that has another id.
pub open spec fn spec_intersects_any(r: RangeView, ranges: Seq<Range>) -> bool {
    exists|i: int| 0 <= i < ranges.len() && ranges[i]@.id != r.id && spec_intersects(r, #[trigger] ranges[i]@)
}

impl Range {
    /// Two ranges are the same value exactly when their plain values agree.
    pub proof fn lemma_view_injective(a: Range, b: Range)
        ensures
            (a@ == b@) <==> (a == b),
    {
    }

    /// Creates a new range with a fresh version 7 id.
    pub fn new(day: Date, start: Time, end: Option<Time>) -> (r: Range)
        ensures
            r@.day == day,
            r@.start == start,
            r@.end == end,
            is_v7_id(r@.id),
            r@.id != 0,
    {
        let id = new_v7_id();
        assert(is_v7_id(id) ==> id != 0) by (bit_vector);
        Self::new_with_id(id, day, start, end)
    }

    /// Creates a range with the given id.
    pub fn new_with_id(id: u128, day: Date, start: Time, end: Option<Time>) -> (r: Range)
        ensures
            r@ == (RangeView { id, day, start, end }),
    {
        Range { id, day, start, end }
    }

    pub fn id(&self) -> (r: u128)
        ensures
            r == self@.id,
    {
        self.id
    }

    pub fn day(&self) -> (r: Date)
        ensures
            r == self@.day,
    {
        self.day
    }

    pub fn start(&self) -> (r: Time)
        ensures
            r == self@.start,
    {
        self.start
    }

    pub fn end(&self) -> (r: Option<Time>)
        ensures
            r == self@.end,
    {
        self.end
    }

    /// Whether the two ranges lie on the same day and overlap; a range
    /// without end lasts until the end of the day.
    pub fn intersects(&self, other: &Range) -> (r: bool)
        ensures
            r == spec_intersects(self@, other@),
    {
        if self.day != other.day {
            return false;
        }
        let cur_start = self.start;
        let cur_end = match self.end {
            Some(t) => t,
            None => Time::max_time(),
        };

        let other_start = other.start;
        let other_end = match other.end {
            Some(t) => t,
            None => Time::max_time(),
        };

        cur_start.seconds() < other_end.seconds() && other_start.seconds() < cur_end.seconds()
    }

    /// Whether this range intersects any of `ranges` other than itself: ranges
    /// with the same id are passed over, so the range may be among them.
    pub fn intersects_iter(&self, ranges: &[Range]) -> (r: bool)
        ensures
            r == spec_intersects_any(self@, ranges@),
    {
        let mut i: usize = 0;
        while i < ranges.len()
            invariant
                0 <= i <= ranges@.len(),
                forall|j: int|
                    0 <= j < i ==> !(ranges@[j]@.id != self@.id && spec_intersects(
                        self@,
                        #[trigger] ranges@[j]@,
                    )),
            decreases ranges@.len() - i,
        {
            let x = &ranges[i];
            if x.id() != self.id && self.intersects(x) {
                return true;
            }
            i = i + 1;
        }
        false
    }
}

/// A range meets the ranges of a list exactly when one of them has another
/// id, lies on the same day, and the two share a second: each starts before
/// the other ends (an open range ends with the day). Ranges of the same id are
/// never counted, and a range that only touches the others meets none of them.
pub proof fn lemma_intersects_any_meaning(r: RangeView, s: Seq<Range>)
    ensures
        spec_intersects_any(r, s) <==> exists|k: int|
            0 <= k < s.len() && (#[trigger] s[k])@.id != r.id && s[k]@.day == r.day && r.start@ < (match s[k]@.end {
                Some(t) => t@,
                None => 86400nat,
            }) && s[k]@.start@ < (match r.end {
                Some(t) => t@,
                None => 86400nat,
            }),
        (forall|k: int| 0 <= k < s.len() && (#[trigger] s[k])@.id != r.id ==> r.end is Some && s[k]@.start@
            == r.end->Some_0@) ==> !spec_intersects_any(r, s),
{
    if spec_intersects_any(r, s) {
        let k = choose|k: int| 0 <= k < s.len() && s[k]@.id != r.id && spec_intersects(r, #[trigger] s[k]@);
        assert(s[k]@.day == r.day);
    }
}

/// Intersection is symmetric.
pub proof fn lemma_intersects_symmetric(a: RangeView, b: RangeView)
    ensures
        spec_intersects(a, b) == spec_intersects(b, a),
{
}

/// Ranges on different days never intersect.
pub proof fn lemma_different_days_disjoint(a: RangeView, b: RangeView)
    requires
        a.day != b.day,
    ensures
        !spec_intersects(a, b),
{
}

/// A range that is not empty (it starts before it stops) intersects itself.
pub proof fn lemma_intersects_self(a: RangeView)
    requires
        a.start@ < end_or_max(a.end),
    ensures
        spec_intersects(a, a),
{
}

/// A range that starts when another one stops does not intersect it.
pub proof fn lemma_touching_disjoint(a: RangeView, b: RangeView)
    requires
        a.end is Some,
        b.start@ == a.end->Some_0@,
    ensures
        !spec_intersects(a, b),
{
}


/// Why a repository refused or failed an operation.
#[derive(Debug)]
pub enum RepositoryError {
    Database(String),
    Serialization(String),
    NotExists,
    Intersects,
}

/// The message that describes a repository error.
pub open spec fn repository_error_message(e: RepositoryError) -> Seq<char> {
    match e {
        RepositoryError::Database(s) => "database error: "@ + s@,
        RepositoryError::Serialization(s) => "serialization error: "@ + s@,
        RepositoryError::NotExists => "range not exists"@,
        RepositoryError::Intersects => "intersects with another range within same day"@,
    }
}

impl RepositoryError {
    /// The message that describes the error.
    pub fn to_string(&self) -> (r: String)
        ensures
            r@ == repository_error_message(*self),
    {
        match self {
            RepositoryError::Database(s) => {
                let mut m = "database error: ".to_owned();
                m.append(s.as_str());
                m
            },
            RepositoryError::Serialization(s) => {
                let mut m = "serialization error: ".to_owned();
                m.append(s.as_str());
                m
            },
            RepositoryError::NotExists => "range not exists".to_owned(),
            RepositoryError::Intersects => "intersects with another range within same day".to_owned(),
        }
    }
}

} // verus!
