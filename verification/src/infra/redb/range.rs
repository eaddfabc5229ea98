use vstd::prelude::*;

use crate::domain::date::Date;
use crate::domain::range::{spec_intersects, spec_intersects_any, Range, RepositoryError};

verus! {

/// The key of a day in the table of ranges by day: `yyyymmdd` in decimal.
pub open spec fn spec_day_key(year: int, month: int, day: int) -> int {
    year * 10000 + month * 100 + day
}

/// The key under which the ranges of `date` are kept, `yyyymmdd` in decimal.
/// Years before 0 have no key (the sum would not fit).
pub fn naivedate2u32(date: &Date) -> (r: u32)
    requires
        date@.year >= 0,
    ensures
        r == spec_day_key(date@.year, date@.month, date@.day),
{
    let year = date.year();
    let month = date.month();
    let day = date.day();
    assert(0 <= year <= 262142);
    (year as u32) * 10000 + month * 100 + day
}

/// Whether no two ranges of `s` intersect.
pub open spec fn pairwise_disjoint(s: Seq<Range>) -> bool {
    forall|i: int, j: int|
        0 <= i < s.len() && 0 <= j < s.len() && i != j ==> !spec_intersects(#[trigger] s[i]@, #[trigger] s[j]@)
}

/// Whether `r` intersects some range of `s`, whatever its id.
pub open spec fn intersects_some(r: Range, s: Seq<Range>) -> bool {
    exists|i: int| 0 <= i < s.len() && spec_intersects(r@, #[trigger] s[i]@)
}

/// Whether some range of `s` has the id `id`.
pub open spec fn has_id(s: Seq<Range>, id: u128) -> bool {
    exists|i: int| 0 <= i < s.len() && (#[trigger] s[i]@).id == id
}

/// Whether `i` is the first position of `s` that holds a range with id `id`.
pub open spec fn is_first_with_id(s: Seq<Range>, id: u128, i: int) -> bool {
    &&& 0 <= i < s.len()
    &&& s[i]@.id == id
    &&& forall|j: int| 0 <= j < i ==> (#[trigger] s[j]@).id != id
}

/// The first position of `s` that holds a range with id `id`.
pub open spec fn first_with_id(s: Seq<Range>, id: u128) -> int {
    choose|i: int| is_first_with_id(s, id, i)
}

/// The ranges of `s` without those of id `id`, in their order.
pub open spec fn spec_remove(s: Seq<Range>, id: u128) -> Seq<Range> {
    s.filter(|x: Range| x@.id != id)
}

/// Inserting a range into the ranges of its day: refused when it intersects
/// any of them, else it is appended.
pub open spec fn spec_insert(day: Seq<Range>, r: Range) -> Result<Seq<Range>, RepositoryError> {
    if intersects_some(r, day) {
        Err(RepositoryError::Intersects)
    } else {
        Ok(day.push(r))
    }
}

/// Replacing the range of the same id within the ranges of its day: refused
/// when no range has that id, or when the new range intersects another one.
pub open spec fn spec_update_in_day(day: Seq<Range>, r: Range) -> Result<Seq<Range>, RepositoryError> {
    if !has_id(day, r@.id) {
        Err(RepositoryError::NotExists)
    } else if spec_intersects_any(r@, day) {
        Err(RepositoryError::Intersects)
    } else {
        Ok(day.update(first_with_id(day, r@.id), r))
    }
}

/// There is one first position exactly when some range has the id.
pub proof fn lemma_first_with_id(s: Seq<Range>, id: u128)
    requires
        has_id(s, id),
    ensures
        is_first_with_id(s, id, first_with_id(s, id)),
        forall|k: int| is_first_with_id(s, id, k) ==> k == first_with_id(s, id),
{
    let w = choose|i: int| 0 <= i < s.len() && (#[trigger] s[i]@).id == id;
    lemma_first_exists(s, id, w);
    let f = first_with_id(s, id);
    assert forall|k: int| is_first_with_id(s, id, k) implies k == f by {
        if k < f {
            assert(s[k]@.id != id);
        } else if f < k {
            assert(s[f]@.id != id);
        }
    }
}

proof fn lemma_first_exists(s: Seq<Range>, id: u128, w: int)
    requires
        0 <= w < s.len(),
        s[w]@.id == id,
    ensures
        exists|i: int| is_first_with_id(s, id, i),
    decreases w,
{
    if exists|j: int| 0 <= j < w && (#[trigger] s[j]@).id == id {
        let j = choose|j: int| 0 <= j < w && (#[trigger] s[j]@).id == id;
        lemma_first_exists(s, id, j);
    } else {
        assert(is_first_with_id(s, id, w));
    }
}

/// The ranges of a day, or none when the day has no entry yet.
pub fn list_or_empty(found: Option<Vec<Range>>) -> (r: Vec<Range>)
    ensures
        r@ == match found {
            Some(v) => v@,
            None => Seq::<Range>::empty(),
        },
{
    match found {
        Some(v) => v,
        None => Vec::new(),
    }
}

/// Inserts `range` into the ranges of its day, unless it intersects one of them.
pub fn insert_into_day(ranges: &mut Vec<Range>, range: Range) -> (r: Result<(), RepositoryError>)
    ensures
        match spec_insert(old(ranges)@, range) {
            Ok(s) => r is Ok && final(ranges)@ == s,
            Err(e) => r == Err::<(), RepositoryError>(e) && final(ranges)@ == old(ranges)@,
        },
{
    let mut i: usize = 0;
    while i < ranges.len()
        invariant
            0 <= i <= ranges@.len(),
            forall|j: int| 0 <= j < i ==> !spec_intersects(range@, #[trigger] ranges@[j]@),
        decreases ranges@.len() - i,
    {
        if range.intersects(&ranges[i]) {
            return Err(RepositoryError::Intersects);
        }
        i = i + 1;
    }
    ranges.push(range);
    Ok(())
}

/// The position of the first range with id `id`, if any.
fn position_of_id(ranges: &Vec<Range>, id: u128) -> (r: Option<usize>)
    ensures
        match r {
            Some(i) => is_first_with_id(ranges@, id, i as int),
            None => !has_id(ranges@, id),
        },
{
    let mut i: usize = 0;
    while i < ranges.len()
        invariant
            0 <= i <= ranges@.len(),
            forall|j: int| 0 <= j < i ==> (#[trigger] ranges@[j]@).id != id,
        decreases ranges@.len() - i,
    {
        if ranges[i].id() == id {
            return Some(i);
        }
        i = i + 1;
    }
    None
}

/// Replaces the range with the id of `range` within the ranges of its day,
/// unless no range has that id or `range` intersects another one.
pub fn update_in_day(ranges: &mut Vec<Range>, range: Range) -> (r: Result<(), RepositoryError>)
    ensures
        match spec_update_in_day(old(ranges)@, range) {
            Ok(s) => r is Ok && final(ranges)@ == s,
            Err(e) => r == Err::<(), RepositoryError>(e) && final(ranges)@ == old(ranges)@,
        },
{
    let pos = position_of_id(ranges, range.id());
    match pos {
        None => Err(RepositoryError::NotExists),
        Some(i) => {
            proof {
                lemma_first_with_id(ranges@, range@.id);
            }
            if range.intersects_iter(ranges.as_slice()) {
                return Err(RepositoryError::Intersects);
            }
            ranges.set(i, range);
            Ok(())
        },
    }
}

/// Removes every range with id `id` from the ranges of a day, keeping the
/// order of the others.
pub fn remove_from_day(ranges: &mut Vec<Range>, id: u128)
    ensures
        final(ranges)@ == spec_remove(old(ranges)@, id),
{
    let ghost orig = ranges@;
    let mut kept: Vec<Range> = Vec::new();
    let mut i: usize = 0;
    while i < ranges.len()
        invariant
            ranges@ == orig,
            0 <= i <= orig.len(),
            kept@ == spec_remove(orig.subrange(0, i as int), id),
        decreases orig.len() - i,
    {
        let x = ranges[i];
        proof {
            assert(orig.subrange(0, i + 1) == orig.subrange(0, i as int).push(orig[i as int]));
            orig.subrange(0, i as int).lemma_filter_push(orig[i as int], |x: Range| x@.id != id);
        }
        if x.id() != id {
            kept.push(x);
        }
        i = i + 1;
    }
    proof {
        assert(orig.subrange(0, orig.len() as int) == orig);
    }
    *ranges = kept;
}

/// Which tables of days an accepted update changed.
#[derive(Debug, Clone, Copy, PartialEq, Eq, Structural)]
pub enum UpdateOutcome {
    /// The range stayed on its day: only that day's ranges changed.
    SameDay,
    /// The range moved to another day: it left the old day's ranges and joined the new day's.
    MovedDay,
}

/// Updating a stored range: `existing` is the stored range with the id of
/// `updated`, if any; `old_day` holds the ranges of the existing range's day
/// and `new_day` those of the updated range's day (used only when the day changes).
pub open spec fn spec_update(
    existing: Option<Range>,
    updated: Range,
    old_day: Seq<Range>,
    new_day: Seq<Range>,
) -> Result<(UpdateOutcome, Seq<Range>, Seq<Range>), RepositoryError> {
    match existing {
        None => Err(RepositoryError::NotExists),
        Some(e) => if e@.day == updated@.day {
            match spec_update_in_day(old_day, updated) {
                Ok(s) => Ok((UpdateOutcome::SameDay, s, new_day)),
                Err(err) => Err(err),
            }
        } else if spec_intersects_any(updated@, new_day) {
            Err(RepositoryError::Intersects)
        } else {
            Ok((UpdateOutcome::MovedDay, spec_remove(old_day, updated@.id), new_day.push(updated)))
        },
    }
}

/// Decides an update of a stored range and applies it to the ranges of the
/// days involved; on refusal both lists are left as they were.
pub fn update_range(
    existing: Option<Range>,
    updated: Range,
    old_day: &mut Vec<Range>,
    new_day: &mut Vec<Range>,
) -> (r: Result<UpdateOutcome, RepositoryError>)
    ensures
        match spec_update(existing, updated, old(old_day)@, old(new_day)@) {
            Ok((o, s1, s2)) => r == Ok::<UpdateOutcome, RepositoryError>(o) && final(old_day)@ == s1
                && final(new_day)@ == s2,
            Err(e) => r == Err::<UpdateOutcome, RepositoryError>(e) && final(old_day)@ == old(old_day)@
                && final(new_day)@ == old(new_day)@,
        },
{
    match existing {
        None => Err(RepositoryError::NotExists),
        Some(e) => {
            if e.day() == updated.day() {
                match update_in_day(old_day, updated) {
                    Ok(()) => Ok(UpdateOutcome::SameDay),
                    Err(err) => Err(err),
                }
            } else if updated.intersects_iter(new_day.as_slice()) {
                Err(RepositoryError::Intersects)
            } else {
                remove_from_day(old_day, updated.id());
                new_day.push(updated);
                Ok(UpdateOutcome::MovedDay)
            }
        },
    }
}

/// Whether no two ranges of `s` have the same id.
pub open spec fn unique_ids(s: Seq<Range>) -> bool {
    forall|i: int, j: int|
        0 <= i < s.len() && 0 <= j < s.len() && i != j ==> (#[trigger] s[i]@).id != (#[trigger] s[j]@).id
}

proof fn lemma_push_pairwise(t: Seq<Range>, x: Range)
    requires
        pairwise_disjoint(t),
        forall|k: int| 0 <= k < t.len() ==> !spec_intersects(x@, #[trigger] t[k]@),
    ensures
        pairwise_disjoint(t.push(x)),
{
    let s = t.push(x);
    assert forall|i: int, j: int| 0 <= i < s.len() && 0 <= j < s.len() && i != j implies !spec_intersects(
        #[trigger] s[i]@,
        #[trigger] s[j]@,
    ) by {
        if i == t.len() {
            assert(!spec_intersects(x@, t[j]@));
        } else if j == t.len() {
            assert(!spec_intersects(x@, t[i]@));
        } else {
            assert(s[i] == t[i] && s[j] == t[j]);
        }
    }
}

proof fn lemma_push_unique(t: Seq<Range>, x: Range)
    requires
        unique_ids(t),
        forall|k: int| 0 <= k < t.len() ==> (#[trigger] t[k]@).id != x@.id,
    ensures
        unique_ids(t.push(x)),
{
    let s = t.push(x);
    assert forall|i: int, j: int| 0 <= i < s.len() && 0 <= j < s.len() && i != j implies (#[trigger] s[i]@).id
        != (#[trigger] s[j]@).id by {
        if i == t.len() {
            assert(t[j]@.id != x@.id);
        } else if j == t.len() {
            assert(t[i]@.id != x@.id);
        } else {
            assert(s[i] == t[i] && s[j] == t[j]);
        }
    }
}

/// Removing the ranges of an id keeps the ranges of a day pairwise disjoint
/// and their ids unique, leaves no range of that id, keeps every other range,
/// and changes nothing when no range had the id.
pub proof fn lemma_remove(s: Seq<Range>, id: u128)
    ensures
        pairwise_disjoint(s) ==> pairwise_disjoint(spec_remove(s, id)),
        unique_ids(s) ==> unique_ids(spec_remove(s, id)),
        !has_id(spec_remove(s, id), id),
        forall|k: int| 0 <= k < s.len() && (#[trigger] s[k]@).id != id ==> spec_remove(s, id).contains(s[k]),
        !has_id(s, id) ==> spec_remove(s, id) == s,
        forall|k: int| 0 <= k < spec_remove(s, id).len() ==> s.contains(#[trigger] spec_remove(s, id)[k]),
    decreases s.len(),
{
    let r = spec_remove(s, id);
    assert forall|k: int| 0 <= k < r.len() implies s.contains(#[trigger] r[k]) by {
        assert(r.contains(r[k]));
        s.lemma_filter_contains_rev(|x: Range| x@.id != id, r[k]);
    }
    assert forall|k: int| 0 <= k < r.len() implies (#[trigger] r[k]@).id != id by {
        s.lemma_filter_pred(|x: Range| x@.id != id, k);
    }
    assert forall|k: int| 0 <= k < s.len() && (#[trigger] s[k]@).id != id implies r.contains(s[k]) by {
        s.lemma_filter_contains(|x: Range| x@.id != id, k);
    }
    if s.len() == 0 {
        s.lemma_filter_len(|x: Range| x@.id != id);
        assert(r =~= s);
    } else {
        let t = s.drop_last();
        let x = s.last();
        assert(s =~= t.push(x));
        lemma_remove(t, id);
        t.lemma_filter_push(x, |x: Range| x@.id != id);
        let rt = spec_remove(t, id);
        if pairwise_disjoint(s) {
            assert(pairwise_disjoint(t)) by {
                assert forall|i: int, j: int|
                    0 <= i < t.len() && 0 <= j < t.len() && i != j implies !spec_intersects(
                    #[trigger] t[i]@,
                    #[trigger] t[j]@,
                ) by {
                    assert(s[i] == t[i] && s[j] == t[j]);
                }
            }
            if x@.id != id {
                assert forall|k: int| 0 <= k < rt.len() implies !spec_intersects(x@, #[trigger] rt[k]@) by {
                    assert(rt.contains(rt[k]));
                    t.lemma_filter_contains_rev(|x: Range| x@.id != id, rt[k]);
                    let m = choose|m: int| 0 <= m < t.len() && t[m] == rt[k];
                    assert(s[m] == t[m]);
                    assert(!spec_intersects(s[t.len() as int]@, s[m]@));
                }
                lemma_push_pairwise(rt, x);
            }
        }
        if unique_ids(s) {
            assert(unique_ids(t)) by {
                assert forall|i: int, j: int| 0 <= i < t.len() && 0 <= j < t.len() && i != j implies (
                #[trigger] t[i]@).id != (#[trigger] t[j]@).id by {
                    assert(s[i] == t[i] && s[j] == t[j]);
                }
            }
            if x@.id != id {
                assert forall|k: int| 0 <= k < rt.len() implies (#[trigger] rt[k]@).id != x@.id by {
                    assert(rt.contains(rt[k]));
                    t.lemma_filter_contains_rev(|x: Range| x@.id != id, rt[k]);
                    let m = choose|m: int| 0 <= m < t.len() && t[m] == rt[k];
                    assert(s[m] == t[m]);
                    assert(s[m]@.id != s[t.len() as int]@.id);
                }
                lemma_push_unique(rt, x);
            }
        }
        if !has_id(s, id) {
            assert(!has_id(t, id)) by {
                if has_id(t, id) {
                    let m = choose|m: int| 0 <= m < t.len() && (#[trigger] t[m]@).id == id;
                    assert(s[m] == t[m]);
                }
            }
            assert(s[t.len() as int]@.id != id);
        }
    }
}

/// An accepted insert keeps the ranges of a day pairwise disjoint, and keeps
/// their ids unique when the id is new; the inserted range is then found last.
pub proof fn lemma_insert(day: Seq<Range>, r: Range)
    requires
        spec_insert(day, r) is Ok,
    ensures
        pairwise_disjoint(day) ==> pairwise_disjoint(spec_insert(day, r)->Ok_0),
        unique_ids(day) && !has_id(day, r@.id) ==> unique_ids(spec_insert(day, r)->Ok_0),
        spec_insert(day, r)->Ok_0.len() == day.len() + 1,
        spec_insert(day, r)->Ok_0.last() == r,
        has_id(spec_insert(day, r)->Ok_0, r@.id),
{
    let s = day.push(r);
    assert(s[day.len() as int] == r);
    if pairwise_disjoint(day) {
        assert forall|k: int| 0 <= k < day.len() implies !spec_intersects(r@, #[trigger] day[k]@) by {
            if spec_intersects(r@, day[k]@) {
                assert(intersects_some(r, day));
            }
        }
        lemma_push_pairwise(day, r);
    }
    if unique_ids(day) && !has_id(day, r@.id) {
        assert forall|k: int| 0 <= k < day.len() implies (#[trigger] day[k]@).id != r@.id by {
            if day[k]@.id == r@.id {
                assert(has_id(day, r@.id));
            }
        }
        lemma_push_unique(day, r);
    }
}

/// Removing the id of a freshly inserted range gives back the ranges of the
/// day as they were before the insert.
pub proof fn lemma_remove_undoes_insert(day: Seq<Range>, r: Range)
    requires
        !has_id(day, r@.id),
        spec_insert(day, r) is Ok,
    ensures
        spec_remove(spec_insert(day, r)->Ok_0, r@.id) == day,
{
    let s = day.push(r);
    day.lemma_filter_push(r, |x: Range| x@.id != r@.id);
    lemma_remove(day, r@.id);
}

/// An accepted update within a day keeps the ranges of the day pairwise
/// disjoint and their ids unique; the updated range takes the place of the
/// range with its id, and every other range stays.
pub proof fn lemma_update_in_day(day: Seq<Range>, r: Range)
    requires
        pairwise_disjoint(day),
        unique_ids(day),
        spec_update_in_day(day, r) is Ok,
    ensures
        pairwise_disjoint(spec_update_in_day(day, r)->Ok_0),
        unique_ids(spec_update_in_day(day, r)->Ok_0),
        spec_update_in_day(day, r)->Ok_0.len() == day.len(),
        spec_update_in_day(day, r)->Ok_0[first_with_id(day, r@.id)] == r,
        forall|k: int|
            0 <= k < day.len() && (#[trigger] day[k]@).id != r@.id ==> spec_update_in_day(day, r)->Ok_0[k]
                == day[k],
{
    lemma_first_with_id(day, r@.id);
    let f = first_with_id(day, r@.id);
    let s = day.update(f, r);
    assert forall|k: int| 0 <= k < day.len() && k != f implies (#[trigger] day[k]@).id != r@.id by {
        assert(day[k]@.id != day[f]@.id);
    }
    assert forall|i: int, j: int| 0 <= i < s.len() && 0 <= j < s.len() && i != j implies !spec_intersects(
        #[trigger] s[i]@,
        #[trigger] s[j]@,
    ) by {
        if i == f {
            if spec_intersects(r@, day[j]@) {
                assert(day[j]@.id != r@.id);
                assert(spec_intersects_any(r@, day));
            }
        } else if j == f {
            if spec_intersects(day[i]@, r@) {
                assert(day[i]@.id != r@.id);
                assert(spec_intersects(r@, day[i]@));
                assert(spec_intersects_any(r@, day));
            }
        } else {
            assert(s[i] == day[i] && s[j] == day[j]);
        }
    }
    assert forall|i: int, j: int| 0 <= i < s.len() && 0 <= j < s.len() && i != j implies (#[trigger] s[i]@).id
        != (#[trigger] s[j]@).id by {
        if i == f {
            assert(day[j]@.id != r@.id);
        } else if j == f {
            assert(day[i]@.id != r@.id);
        } else {
            assert(s[i] == day[i] && s[j] == day[j]);
        }
    }
}

/// An accepted update keeps the ranges of every day involved pairwise
/// disjoint and their ids unique, given that the updated id is kept on one
/// day only; the updated range is then found on its day and, when it moved,
/// no longer on the old one.
pub proof fn lemma_update(existing: Option<Range>, updated: Range, old_day: Seq<Range>, new_day: Seq<Range>)
    requires
        pairwise_disjoint(old_day),
        unique_ids(old_day),
        pairwise_disjoint(new_day),
        unique_ids(new_day),
        existing matches Some(e) && e@.day != updated@.day ==> !has_id(new_day, updated@.id),
        spec_update(existing, updated, old_day, new_day) is Ok,
    ensures
        ({
            let (o, s1, s2) = spec_update(existing, updated, old_day, new_day)->Ok_0;
            &&& pairwise_disjoint(s1)
            &&& unique_ids(s1)
            &&& pairwise_disjoint(s2)
            &&& unique_ids(s2)
            &&& o == UpdateOutcome::SameDay ==> s1.contains(updated) && s2 == new_day
            &&& o == UpdateOutcome::MovedDay ==> !has_id(s1, updated@.id) && s2 == new_day.push(updated)
            &&& forall|k: int|
                0 <= k < old_day.len() && (#[trigger] old_day[k])@.id != updated@.id ==> s1.contains(
                    old_day[k],
                )
            &&& forall|k: int|
                0 <= k < s1.len() && (#[trigger] s1[k])@.id != updated@.id ==> old_day.contains(s1[k])
        }),
{
    let e = existing->Some_0;
    if e@.day == updated@.day {
        lemma_update_in_day(old_day, updated);
        lemma_first_with_id(old_day, updated@.id);
        let s1 = spec_update_in_day(old_day, updated)->Ok_0;
        let f = first_with_id(old_day, updated@.id);
        assert(s1[f] == updated);
        assert forall|k: int| 0 <= k < old_day.len() && (#[trigger] old_day[k])@.id != updated@.id implies s1.contains(
            old_day[k],
        ) by {
            assert(s1[k] == old_day[k]);
        }
        assert forall|k: int| 0 <= k < s1.len() && (#[trigger] s1[k])@.id != updated@.id implies old_day.contains(
            s1[k],
        ) by {
            assert(k != f);
            assert(s1[k] == old_day[k]);
        }
    } else {
        lemma_remove(old_day, updated@.id);
        let s1 = spec_remove(old_day, updated@.id);
        assert forall|k: int| 0 <= k < s1.len() && (#[trigger] s1[k])@.id != updated@.id implies old_day.contains(
            s1[k],
        ) by {
            assert(s1.contains(s1[k]));
            old_day.lemma_filter_contains_rev(|x: Range| x@.id != updated@.id, s1[k]);
        }
        assert forall|k: int| 0 <= k < new_day.len() implies !spec_intersects(updated@, #[trigger] new_day[k]@) by {
            assert(new_day[k]@.id != updated@.id);
            if spec_intersects(updated@, new_day[k]@) {
                assert(spec_intersects_any(updated@, new_day));
            }
        }
        assert forall|k: int| 0 <= k < new_day.len() implies (#[trigger] new_day[k]@).id != updated@.id by {
            if new_day[k]@.id == updated@.id {
                assert(has_id(new_day, updated@.id));
            }
        }
        lemma_push_pairwise(new_day, updated);
        lemma_push_unique(new_day, updated);
    }
}

/// Day keys follow the calendar: for dates of years from 0 on, one key is
/// smaller than another exactly when its date comes first, and equal keys
/// mean the same day.
pub proof fn lemma_day_key_order(a: Date, b: Date)
    requires
        a@.year >= 0,
        b@.year >= 0,
        1 <= a@.month <= 12,
        1 <= b@.month <= 12,
        1 <= a@.day <= 31,
        1 <= b@.day <= 31,
    ensures
        (spec_day_key(a@.year, a@.month, a@.day) < spec_day_key(b@.year, b@.month, b@.day)) <==> (a@.year
            < b@.year || (a@.year == b@.year && (a@.month < b@.month || (a@.month == b@.month && a@.day
            < b@.day)))),
        (spec_day_key(a@.year, a@.month, a@.day) == spec_day_key(b@.year, b@.month, b@.day)) <==> (a == b),
{
    Date::lemma_view_injective(a, b);
}

/// Inserting is refused exactly when the new range overlaps a stored range of
/// its day, a range covering the seconds from its start up to (not including)
/// its end, or up to the end of the day when it has none. Otherwise the
/// ranges of the day become the stored ones followed by the new range; in
/// particular a range that only touches a stored one is accepted.
pub proof fn lemma_insert_refused_exactly_on_overlap(day: Seq<Range>, r: Range)
    ensures
        (exists|k: int|
            0 <= k < day.len() && r@.day == (#[trigger] day[k])@.day && r@.start@ < (match day[k]@.end {
                Some(t) => t@,
                None => 86400nat,
            }) && day[k]@.start@ < (match r@.end {
                Some(t) => t@,
                None => 86400nat,
            })) ==> spec_insert(day, r) == Err::<Seq<Range>, RepositoryError>(RepositoryError::Intersects),
        !(exists|k: int|
            0 <= k < day.len() && r@.day == (#[trigger] day[k])@.day && r@.start@ < (match day[k]@.end {
                Some(t) => t@,
                None => 86400nat,
            }) && day[k]@.start@ < (match r@.end {
                Some(t) => t@,
                None => 86400nat,
            })) ==> spec_insert(day, r) == Ok::<Seq<Range>, RepositoryError>(day.push(r)),
{
    if intersects_some(r, day) {
        let k = choose|k: int| 0 <= k < day.len() && spec_intersects(r@, #[trigger] day[k]@);
        assert(r@.day == day[k]@.day);
    }
}

/// Updating a range on its own day is accepted exactly when a stored range
/// has its id and it overlaps (half open, an open range lasting to the end of
/// the day) no range of another id; it then takes the place of the range with
/// its id, and every other range stays where it was.
pub proof fn lemma_update_in_day_accepted_exactly_without_overlap(day: Seq<Range>, r: Range)
    ensures
        !(exists|k: int| 0 <= k < day.len() && (#[trigger] day[k])@.id == r@.id) ==> spec_update_in_day(
            day,
            r,
        ) == Err::<Seq<Range>, RepositoryError>(RepositoryError::NotExists),
        (exists|k: int| 0 <= k < day.len() && (#[trigger] day[k])@.id == r@.id) ==> ((exists|k: int|
            0 <= k < day.len() && (#[trigger] day[k])@.id != r@.id && r@.day == day[k]@.day && r@.start@
                < (match day[k]@.end {
                Some(t) => t@,
                None => 86400nat,
            }) && day[k]@.start@ < (match r@.end {
                Some(t) => t@,
                None => 86400nat,
            })) <==> spec_update_in_day(day, r) == Err::<Seq<Range>, RepositoryError>(
            RepositoryError::Intersects,
        )),
        spec_update_in_day(day, r) matches Ok(s) ==> s.len() == day.len() && s.contains(r) && (forall|k: int|
            0 <= k < day.len() && (#[trigger] day[k])@.id != r@.id ==> s[k] == day[k]),
{
    if has_id(day, r@.id) {
        lemma_first_with_id(day, r@.id);
        let f = first_with_id(day, r@.id);
        if spec_intersects_any(r@, day) {
            let k = choose|k: int|
                0 <= k < day.len() && day[k]@.id != r@.id && spec_intersects(r@, #[trigger] day[k]@);
            assert(day[k]@.id != r@.id && r@.day == day[k]@.day);
        } else {
            let s = day.update(f, r);
            assert(s[f] == r);
        }
    } else {
        assert(!(exists|k: int| 0 <= k < day.len() && (#[trigger] day[k])@.id == r@.id)) by {
            if exists|k: int| 0 <= k < day.len() && (#[trigger] day[k])@.id == r@.id {
                let k = choose|k: int| 0 <= k < day.len() && (#[trigger] day[k])@.id == r@.id;
                assert(has_id(day, r@.id));
            }
        }
    }
}

/// What an update of a stored range does, whatever the stored lists hold:
/// without a stored range of that id it is refused as not existing; when the
/// day changes it is refused exactly when the new range overlaps (half open,
/// an open range lasting to the end of the day) a range of another id on the
/// new day. An accepted update keeps every range of another id on the old day
/// and brings in no range there other than the updated one; the new day gains
/// exactly the updated range when it moved, and is untouched otherwise.
pub proof fn lemma_update_meaning(existing: Option<Range>, updated: Range, old_day: Seq<Range>, new_day: Seq<Range>)
    ensures
        existing is None ==> spec_update(existing, updated, old_day, new_day) == Err::<
            (UpdateOutcome, Seq<Range>, Seq<Range>),
            RepositoryError,
        >(RepositoryError::NotExists),
        existing matches Some(e) && e@.day != updated@.day ==> ((exists|k: int|
            0 <= k < new_day.len() && (#[trigger] new_day[k])@.id != updated@.id && updated@.day
                == new_day[k]@.day && updated@.start@ < (match new_day[k]@.end {
                Some(t) => t@,
                None => 86400nat,
            }) && new_day[k]@.start@ < (match updated@.end {
                Some(t) => t@,
                None => 86400nat,
            })) <==> spec_update(existing, updated, old_day, new_day) == Err::<
            (UpdateOutcome, Seq<Range>, Seq<Range>),
            RepositoryError,
        >(RepositoryError::Intersects)),
        spec_update(existing, updated, old_day, new_day) matches Ok((o, s1, s2)) ==> {
            &&& forall|k: int|
                0 <= k < old_day.len() && (#[trigger] old_day[k])@.id != updated@.id ==> s1.contains(
                    old_day[k],
                )
            &&& forall|k: int|
                0 <= k < s1.len() && (#[trigger] s1[k])@.id != updated@.id ==> old_day.contains(s1[k])
            &&& (o == UpdateOutcome::SameDay <==> existing->Some_0@.day == updated@.day)
            &&& o == UpdateOutcome::SameDay ==> s2 == new_day && s1.len() == old_day.len() && s1.contains(
                updated,
            )
            &&& o == UpdateOutcome::MovedDay ==> s2 == new_day.push(updated) && !(exists|k: int|
                0 <= k < s1.len() && (#[trigger] s1[k])@.id == updated@.id)
        },
{
    if existing is Some {
        let e = existing->Some_0;
        if e@.day == updated@.day {
            if spec_update(existing, updated, old_day, new_day) is Ok {
                lemma_update_in_day_accepted_exactly_without_overlap(old_day, updated);
                let s1 = spec_update_in_day(old_day, updated)->Ok_0;
                lemma_first_with_id(old_day, updated@.id);
                let f = first_with_id(old_day, updated@.id);
                assert forall|k: int|
                    0 <= k < old_day.len() && (#[trigger] old_day[k])@.id != updated@.id implies s1.contains(
                    old_day[k],
                ) by {
                    assert(s1[k] == old_day[k]);
                }
                assert forall|k: int| 0 <= k < s1.len() && (#[trigger] s1[k])@.id != updated@.id implies old_day.contains(
                    s1[k],
                ) by {
                    assert(k != f);
                    assert(s1[k] == old_day[k]);
                }
            }
        } else {
            if spec_intersects_any(updated@, new_day) {
                let k = choose|k: int|
                    0 <= k < new_day.len() && new_day[k]@.id != updated@.id && spec_intersects(
                        updated@,
                        #[trigger] new_day[k]@,
                    );
                assert(new_day[k]@.id != updated@.id && updated@.day == new_day[k]@.day);
            } else {
                lemma_remove(old_day, updated@.id);
                let s1 = spec_remove(old_day, updated@.id);
                assert forall|k: int| 0 <= k < s1.len() && (#[trigger] s1[k])@.id != updated@.id implies old_day.contains(
                    s1[k],
                ) by {
                    assert(s1.contains(s1[k]));
                    old_day.lemma_filter_contains_rev(|x: Range| x@.id != updated@.id, s1[k]);
                }
                assert(!(exists|k: int| 0 <= k < s1.len() && (#[trigger] s1[k])@.id == updated@.id)) by {
                    if exists|k: int| 0 <= k < s1.len() && (#[trigger] s1[k])@.id == updated@.id {
                        let k = choose|k: int| 0 <= k < s1.len() && (#[trigger] s1[k])@.id == updated@.id;
                        assert(has_id(s1, updated@.id));
                    }
                }
            }
        }
    }
}

} // verus!
