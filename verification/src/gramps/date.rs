//! The Gramps Date object.
//!
//! A date carries a calendar, a modifier (none / before / after / about /
//! range / span / text-only / from / to), a quality, and a `dateval` that is
//! either a simple `[day, month, year, slash]` tuple or a range of two such
//! tuples. `year` is a precomputed year that Gramps writes on some dates and
//! not on others.

use vstd::prelude::*;

verus! {

/// A calendar id, see `calendar_name`.
pub type CalendarId = i32;
/// A modifier id (none / before / after / about / range / span / ...).
pub type ModifierId = i32;
/// A quality id (regular / estimated / calculated).
pub type QualityId = i32;

/// `dateval`: a simple 4-tuple or a range 8-tuple.
#[derive(Debug, Clone, Copy, PartialEq, Eq)]
pub enum DateVal {
    /// `[day, month, year, slash]`
    Simple(i32, i32, i32, bool),
    /// `[d1, m1, y1, s1, d2, m2, y2, s2]`
    Range(i32, i32, i32, bool, i32, i32, i32, bool),
}

/// The primary (first) year of a `dateval`, in either shape.
pub open spec fn dateval_year(d: DateVal) -> i32 {
    match d {
        DateVal::Simple(_, _, y, _) => y,
        DateVal::Range(_, _, y, _, _, _, _, _) => y,
    }
}

impl DateVal {
    /// The primary (first) year in either shape.
    pub fn year(&self) -> (r: i32)
        ensures
            r == dateval_year(*self),
    {
        match self {
            DateVal::Simple(_, _, y, _) => *y,
            DateVal::Range(_, _, y, _, _, _, _, _) => *y,
        }
    }
}

/// A Gramps Date.
#[derive(Debug, Clone)]
pub struct Date {
    pub class: Option<String>,
    pub calendar: CalendarId,
    pub modifier: ModifierId,
    pub quality: QualityId,
    pub dateval: Option<DateVal>,
    pub text: String,
    pub sortval: i64,
    pub newyear: i32,
    /// Free-form format override (rare).
    pub format: Option<String>,
    /// Precomputed year, present on some dates only.
    pub year: Option<i32>,
}

/// A date carries no usable value: no sort value, no text, either no
/// `dateval` or the all-zero simple one, and no precomputed year (none, or
/// the year 0).
pub open spec fn date_is_empty(d: Date) -> bool {
    &&& d.sortval == 0
    &&& d.text@.len() == 0
    &&& (d.dateval is None || d.dateval == Some(DateVal::Simple(0, 0, 0, false)))
    &&& (d.year is None || d.year == Some(0i32))
}

/// The precomputed year when there is one, else the year of `dateval`,
/// else 0.
pub open spec fn date_primary_year(d: Date) -> i32 {
    match d.year {
        Some(y) => y,
        None => match d.dateval {
            Some(v) => dateval_year(v),
            None => 0,
        },
    }
}

impl Date {
    /// True if the date carries no usable value at all.
    pub fn is_empty(&self) -> (r: bool)
        ensures
            r == date_is_empty(*self),
    {
        self.sortval == 0 && self.text.as_str().is_empty() && match self.dateval {
            None => true,
            Some(DateVal::Simple(0, 0, 0, false)) => true,
            _ => false,
        } && match self.year {
            None => true,
            Some(y) => y == 0,
        }
    }

    /// Primary year if present, else 0.
    pub fn primary_year(&self) -> (r: i32)
        ensures
            r == date_primary_year(*self),
    {
        if let Some(y) = self.year {
            return y;
        }
        match &self.dateval {
            Some(d) => d.year(),
            None => 0,
        }
    }
}

/// An empty date carries no year: its primary year is 0.
pub proof fn lemma_empty_date_has_no_year(d: Date)
    requires
        date_is_empty(d),
    ensures
        date_primary_year(d) == 0,
{
}

} // verus!
