//! The logic of the command-line tool: argument values, date arguments,
//! type names, id resolution, and the summaries and searches it prints.

use vstd::prelude::*;

use crate::db::keyed::{find, find_gid, find_gid_spec, find_key, HasGrampsId, Keyed};
use crate::db::repo::person::linked_event;
use crate::db::snapshot::{lookup, Snapshot};
use crate::gramps::date::{date_primary_year, dateval_year, Date, DateVal};
use crate::gramps::enums::{event_type_label, event_type_label_table, family_rel_label_table, gender_label, gender_label_table, place_type_label, place_type_label_table};
use crate::gramps::event::EventRef;
use crate::gramps::family::Family;
use crate::gramps::person::{name_display, Person};
use crate::text::{
    contains_str, format_int_padded, has_substring, int_decimal_padded, lowercase, lower_text, ascii_lower, ascii_from,
    lemma_ascii_from, is_ascii_text, parse_i32, parse_i32_spec, split_char, split_on,
    to_lowercase, trim, trimmed, lemma_digit_not_white, lemma_padded_digits, lemma_parse_digit_run, lemma_split_append,
    lemma_split_single, lemma_trim_unchanged,
};

verus! {

/// The `--gender` argument.
#[derive(Debug, Clone, Copy, PartialEq, Eq, Structural)]
pub enum GenderArg {
    Female,
    Male,
    Unknown,
    Other,
}

/// The Gramps gender value of a `--gender` argument.
pub open spec fn gender_value(a: GenderArg) -> i32 {
    match a {
        GenderArg::Female => 0i32,
        GenderArg::Male => 1,
        GenderArg::Unknown => 2,
        GenderArg::Other => 3,
    }
}

impl GenderArg {
    /// The Gramps gender value: 0 female, 1 male, 2 unknown, 3 other.
    pub fn as_i32(self) -> (r: i32)
        ensures
            r == gender_value(self),
    {
        match self {
            GenderArg::Female => 0,
            GenderArg::Male => 1,
            GenderArg::Unknown => 2,
            GenderArg::Other => 3,
        }
    }
}

/// The `--rel` argument of a family.
#[derive(Debug, Clone, Copy, PartialEq, Eq, Structural)]
pub enum FamilyRelArg {
    Married,
    Unmarried,
    CivilUnion,
    Unknown,
}

/// The `FamilyRelType` value of a `--rel` argument.
pub open spec fn rel_value(a: FamilyRelArg) -> i32 {
    match a {
        FamilyRelArg::Married => 0i32,
        FamilyRelArg::Unmarried => 1,
        FamilyRelArg::CivilUnion => 2,
        FamilyRelArg::Unknown => 3,
    }
}

/// The gender a `--gender` argument sets is shown under the argument's own
/// word: `female`, `male`, `unknown`, `other`.
pub proof fn lemma_gender_arg_label(a: GenderArg)
    ensures
        gender_label_table(gender_value(a)) == match a {
            GenderArg::Female => "female"@,
            GenderArg::Male => "male"@,
            GenderArg::Unknown => "unknown"@,
            GenderArg::Other => "other"@,
        },
{
}

/// The relationship type a `--rel` argument sets is shown under the
/// argument's own name.
pub proof fn lemma_rel_arg_label(a: FamilyRelArg)
    ensures
        family_rel_label_table(rel_value(a)) == Some(
            match a {
                FamilyRelArg::Married => "Married"@,
                FamilyRelArg::Unmarried => "Unmarried"@,
                FamilyRelArg::CivilUnion => "Civil Union"@,
                FamilyRelArg::Unknown => "Unknown"@,
            },
        ),
{
}

impl FamilyRelArg {
    /// The `FamilyRelType` value: 0 married, 1 unmarried, 2 civil union,
    /// 3 unknown.
    pub fn as_i32(self) -> (r: i32)
        ensures
            r == rel_value(self),
    {
        match self {
            FamilyRelArg::Married => 0,
            FamilyRelArg::Unmarried => 1,
            FamilyRelArg::CivilUnion => 2,
            FamilyRelArg::Unknown => 3,
        }
    }
}

/// Why a date argument was refused.
#[derive(Debug, Clone, Copy, PartialEq, Eq, Structural)]
pub enum DateArgError {
    /// A piece between the dashes is not a number.
    NotDigits,
    /// More than three pieces: not `YYYY`, `YYYY-MM` or `YYYY-MM-DD`.
    BadShape,
    /// The year is 0.
    ZeroYear,
}

/// Every piece parses as an `i32`.
pub open spec fn all_numbers(parts: Seq<Seq<char>>) -> bool {
    forall|k: int| 0 <= k < parts.len() ==> (#[trigger] parse_i32_spec(parts[k])) is Some
}

/// The number piece `k` holds, 0 past the end.
pub open spec fn part_value(parts: Seq<Seq<char>>, k: int) -> i32 {
    if 0 <= k < parts.len() {
        match parse_i32_spec(parts[k]) {
            Some(v) => v,
            None => 0,
        }
    } else {
        0
    }
}

/// `x` is the regular Gregorian date `day`/`month`/`year` that a date
/// argument makes.
pub open spec fn is_arg_date(x: Date, year: i32, month: i32, day: i32) -> bool {
    &&& x.class matches Some(c) && c@ == "Date"@
    &&& x.calendar == 0
    &&& x.modifier == 0
    &&& x.quality == 0
    &&& x.dateval == Some(DateVal::Simple(day, month, year, false))
    &&& x.text@.len() == 0
    &&& x.sortval == 0
    &&& x.newyear == 0
    &&& x.format is None
    &&& x.year == Some(year)
}

/// What a `--birth` / `--death` / `--date` argument gives: nothing when
/// absent or blank; else the trimmed text split at `-` into `YYYY`,
/// `YYYY-MM` or `YYYY-MM-DD`, every piece a number and the year not 0.
pub open spec fn date_arg(s: Option<Seq<char>>, r: Result<Option<Date>, DateArgError>) -> bool {
    match s {
        None => r == Ok::<Option<Date>, DateArgError>(None),
        Some(x) => {
            let t = trimmed(x);
            let parts = split_on(t, '-');
            if t.len() == 0 {
                r == Ok::<Option<Date>, DateArgError>(None)
            } else if !all_numbers(parts) {
                r == Err::<Option<Date>, DateArgError>(DateArgError::NotDigits)
            } else if parts.len() > 3 {
                r == Err::<Option<Date>, DateArgError>(DateArgError::BadShape)
            } else if part_value(parts, 0) == 0 {
                r == Err::<Option<Date>, DateArgError>(DateArgError::ZeroYear)
            } else {
                r matches Ok(Some(d)) && is_arg_date(d, part_value(parts, 0), part_value(parts, 1), part_value(parts, 2))
            }
        },
    }
}

/// Parse a date argument: `YYYY`, `YYYY-MM` or `YYYY-MM-DD`.
pub fn parse_date_opt(s: Option<&str>) -> (r: Result<Option<Date>, DateArgError>)
    ensures
        date_arg(
            match s {
                Some(x) => Some(x@),
                None => None,
            },
            r,
        ),
{
    let x = match s {
        Some(x) => x,
        None => return Ok(None),
    };
    let t = trim(x);
    if t.as_str().is_empty() {
        return Ok(None);
    }
    let parts = split_char(t.as_str(), '-');
    let ghost sp = split_on(t@, '-');
    proof {
        crate::text::lemma_split_nonempty(t@, '-');
    }
    let mut nums: Vec<i32> = Vec::new();
    let mut k: usize = 0;
    while k < parts.len()
        invariant
            s == Some(x),
            t@ == trimmed(x@),
            t@.len() > 0,
            sp == split_on(t@, '-'),
            k <= parts@.len(),
            parts@.len() == sp.len(),
            forall|i: int| 0 <= i < parts@.len() ==> #[trigger] parts@[i]@ == sp[i],
            nums@.len() == k,
            forall|i: int| 0 <= i < k ==> parse_i32_spec(sp[i]) == Some(#[trigger] nums@[i]),
        decreases parts.len() - k,
    {
        match parse_i32(parts[k].as_str()) {
            Some(v) => nums.push(v),
            None => {
                assert(parse_i32_spec(sp[k as int]) is None);
                assert(!all_numbers(sp));
                return Err(DateArgError::NotDigits);
            },
        }
        k = k + 1;
    }
    assert forall|i: int| 0 <= i < sp.len() implies (#[trigger] parse_i32_spec(sp[i])) is Some by {
        assert(parse_i32_spec(sp[i]) == Some(nums@[i]));
    }
    assert(all_numbers(sp));
    if nums.len() > 3 {
        return Err(DateArgError::BadShape);
    }
    let year = nums[0];
    let month = if nums.len() > 1 {
        nums[1]
    } else {
        0
    };
    let day = if nums.len() > 2 {
        nums[2]
    } else {
        0
    };
    if year == 0 {
        return Err(DateArgError::ZeroYear);
    }
    Ok(
        Some(
            Date {
                class: Some(String::from_str("Date")),
                calendar: 0,
                modifier: 0,
                quality: 0,
                dateval: Some(DateVal::Simple(day, month, year, false)),
                text: String::new(),
                sortval: 0,
                newyear: 0,
                format: None,
                year: Some(year),
            },
        ),
    )
}

/// A date as the tool prints it.
#[derive(Debug, Clone)]
pub struct DateSummary {
    /// `YYYY`, `YYYY-MM` or `YYYY-MM-DD` (zero-padded), none without a year.
    pub iso: Option<String>,
    pub year: i32,
    pub month: i32,
    pub day: i32,
    pub text: String,
}

/// The ISO text of a day, month and year: the year to four digits, then
/// the month and day to two, each only while set.
pub open spec fn iso_text(year: i32, month: i32, day: i32) -> Option<Seq<char>> {
    if year == 0 {
        None
    } else if month == 0 {
        Some(int_decimal_padded(year as int, 4))
    } else if day == 0 {
        Some(int_decimal_padded(year as int, 4) + "-"@ + int_decimal_padded(month as int, 2))
    } else {
        Some(int_decimal_padded(year as int, 4) + "-"@ + int_decimal_padded(month as int, 2) + "-"@ + int_decimal_padded(day as int, 2))
    }
}

/// The day, month and year a date prints: the first triple of its
/// `dateval`, or the precomputed year alone.
pub open spec fn printed_parts(d: Date) -> (i32, i32, i32) {
    match d.dateval {
        Some(DateVal::Simple(day, m, y, _)) => (day, m, y),
        Some(DateVal::Range(day, m, y, _, _, _, _, _)) => (day, m, y),
        None => (0, 0, match d.year {
            Some(y) => y,
            None => 0,
        }),
    }
}

/// Parsing a `YYYY`, `YYYY-MM` or `YYYY-MM-DD` argument and printing the
/// date it gives yields the argument back: here the argument is the text
/// that [`iso_text`] makes of a year of 1 to 9999 and, where present, a
/// month and a day of 1 to 99 (a day only with a month).
pub proof fn lemma_date_text_round_trip(year: i32, month: i32, day: i32, r: Result<Option<Date>, DateArgError>)
    requires
        1 <= year <= 9999,
        0 <= month <= 99,
        0 <= day <= 99,
        month == 0 ==> day == 0,
        date_arg(iso_text(year, month, day), r),
    ensures
        r matches Ok(Some(x)) && printed_parts(x) == (day, month, year)
            && iso_text(printed_parts(x).2, printed_parts(x).1, printed_parts(x).0) == iso_text(year, month, day),
{
    reveal_strlit("-");
    let dash: Seq<char> = "-"@;
    assert(dash =~= seq!['-']);
    let ys = int_decimal_padded(year as int, 4);
    let ms = int_decimal_padded(month as int, 2);
    let ds = int_decimal_padded(day as int, 2);
    lemma_padded_digits(year as int, 4);
    lemma_padded_digits(month as int, 2);
    lemma_padded_digits(day as int, 2);
    lemma_parse_digit_run(ys);
    lemma_parse_digit_run(ms);
    lemma_parse_digit_run(ds);
    assert forall|i: int| 0 <= i < ys.len() implies ys[i] != '-' by {
        lemma_digit_not_white(ys[i]);
    }
    assert forall|i: int| 0 <= i < ms.len() implies ms[i] != '-' by {
        lemma_digit_not_white(ms[i]);
    }
    assert forall|i: int| 0 <= i < ds.len() implies ds[i] != '-' by {
        lemma_digit_not_white(ds[i]);
    }
    lemma_split_single(ys, '-');
    let t = iso_text(year, month, day)->0;
    let parts = split_on(t, '-');
    if month == 0 {
        assert(t == ys);
        assert(parts == seq![ys]);
    } else if day == 0 {
        assert(t =~= ys + seq!['-'] + ms);
        lemma_split_append(ys, ms, '-');
        assert(parts =~= seq![ys, ms]);
    } else {
        let ym = ys + seq!['-'] + ms;
        assert(t =~= ym + seq!['-'] + ds);
        lemma_split_append(ys, ms, '-');
        lemma_split_append(ym, ds, '-');
        assert(parts =~= seq![ys, ms, ds]);
    }
    lemma_digit_not_white(t[0]);
    lemma_digit_not_white(t.last());
    lemma_trim_unchanged(t);
    assert(all_numbers(parts));
    assert(part_value(parts, 0) == year);
    assert(part_value(parts, 1) == month);
    assert(part_value(parts, 2) == day);
}

/// The printed year is the date's first year: that of its `dateval` when
/// it has one (the start of a range), else the precomputed year. It is the
/// date's primary year whenever the precomputed year is absent or agrees
/// with the `dateval`.
pub proof fn lemma_printed_year(d: Date)
    ensures
        d.dateval matches Some(v) ==> printed_parts(d).2 == dateval_year(v),
        (d.year is None || d.dateval is None || d.year == Some(dateval_year(d.dateval->0))) ==> printed_parts(d).2
            == date_primary_year(d),
{
}

/// A range prints its start: the day, month and year of its first triple.
pub proof fn lemma_range_prints_start(d: Date, d1: i32, m1: i32, y1: i32, s1: bool, d2: i32, m2: i32, y2: i32, s2: bool)
    requires
        d.dateval == Some(DateVal::Range(d1, m1, y1, s1, d2, m2, y2, s2)),
    ensures
        printed_parts(d) == (d1, m1, y1),
        iso_text(y1, m1, d1) == iso_text(printed_parts(d).2, printed_parts(d).1, printed_parts(d).0),
{
}

/// A simple date prints its day, month and year; a date without a
/// `dateval` prints its precomputed year alone.
pub proof fn lemma_simple_prints_itself(d: Date)
    ensures
        d.dateval matches Some(DateVal::Simple(day, m, y, _)) ==> printed_parts(d) == (day, m, y),
        d.dateval is None ==> printed_parts(d) == (0i32, 0i32, match d.year {
            Some(y) => y,
            None => 0i32,
        }),
{
}

/// The summary of a date the tool prints.
pub fn format_date(d: &Date) -> (r: DateSummary)
    ensures
        (r.day, r.month, r.year) == printed_parts(*d),
        match r.iso {
            Some(s) => iso_text(r.year, r.month, r.day) == Some(s@),
            None => iso_text(r.year, r.month, r.day) is None,
        },
        r.text@ == d.text@,
{
    let (day, month, year) = match &d.dateval {
        Some(DateVal::Simple(dd, m, y, _)) => (*dd, *m, *y),
        Some(DateVal::Range(dd, m, y, _, _, _, _, _)) => (*dd, *m, *y),
        None => (0, 0, match d.year {
            Some(y) => y,
            None => 0,
        }),
    };
    let iso = if year == 0 {
        None
    } else {
        let mut out = format_int_padded(year as i64, 4);
        if month != 0 {
            out.append("-");
            let ms = format_int_padded(month as i64, 2);
            out.append(ms.as_str());
            if day != 0 {
                out.append("-");
                let ds = format_int_padded(day as i64, 2);
                out.append(ds.as_str());
            }
        }
        Some(out)
    };
    DateSummary { iso, year, month, day, text: d.text.clone() }
}

/// The first event type in `lo..=53` whose label lowercases to
/// `needle`.
pub open spec fn event_label_match(lo: int, needle: Seq<char>) -> Option<i32>
    decreases 54 - lo,
{
    if lo > 53 {
        None
    } else {
        match event_type_label_table(lo as i32) {
            Some(l) => if lower_text(l) == needle {
                Some(lo as i32)
            } else {
                event_label_match(lo + 1, needle)
            },
            None => event_label_match(lo + 1, needle),
        }
    }
}

/// The first place type in `lo..=20` whose label lowercases to `needle`.
pub open spec fn place_label_match(lo: int, needle: Seq<char>) -> Option<i32>
    decreases 21 - lo,
{
    if lo > 20 {
        None
    } else {
        match place_type_label_table(lo as i32) {
            Some(l) => if lower_text(l) == needle {
                Some(lo as i32)
            } else {
                place_label_match(lo + 1, needle)
            },
            None => place_label_match(lo + 1, needle),
        }
    }
}

/// The event type an argument names: its number, else the first event
/// type whose label lowercases as the argument does.
pub open spec fn event_type_arg(s: Seq<char>) -> Option<i32> {
    match parse_i32_spec(s) {
        Some(n) => Some(n),
        None => event_label_match(-1, lower_text(s)),
    }
}

/// Length and first three characters of a text.
spec fn label_key(s: Seq<char>) -> (int, char, char, char) {
    (s.len() as int, s[0], s[1], s[2])
}

/// The event type whose lowercased label has length and first three
/// characters `k`.
spec fn event_label_owner(k: (int, char, char, char)) -> Option<int> {
    if k == (7int, 'u', 'n', 'k') {
        Some(-1)
    } else if k == (6int, 'c', 'u', 's') {
        Some(0)
    } else if k == (8int, 'm', 'a', 'r') {
        Some(1)
    } else if k == (19int, 'm', 'a', 'r') {
        Some(2)
    } else if k == (16int, 'm', 'a', 'r') {
        Some(3)
    } else if k == (17int, 'm', 'a', 'r') {
        Some(4)
    } else if k == (14int, 'm', 'a', 'r') {
        Some(5)
    } else if k == (10int, 'e', 'n', 'g') {
        Some(6)
    } else if k == (7int, 'd', 'i', 'v') {
        Some(7)
    } else if k == (14int, 'd', 'i', 'v') {
        Some(8)
    } else if k == (9int, 'a', 'n', 'n') {
        Some(9)
    } else if k == (18int, 'a', 'l', 't') {
        Some(10)
    } else if k == (7int, 'a', 'd', 'o') {
        Some(11)
    } else if k == (5int, 'b', 'i', 'r') {
        Some(12)
    } else if k == (5int, 'd', 'e', 'a') {
        Some(13)
    } else if k == (17int, 'a', 'd', 'u') {
        Some(14)
    } else if k == (7int, 'b', 'a', 'p') {
        Some(15)
    } else if k == (11int, 'b', 'a', 'r') {
        Some(16)
    } else if k == (11int, 'b', 'a', 's') {
        Some(17)
    } else if k == (8int, 'b', 'l', 'e') {
        Some(18)
    } else if k == (6int, 'b', 'u', 'r') {
        Some(19)
    } else if k == (14int, 'c', 'a', 'u') {
        Some(20)
    } else if k == (6int, 'c', 'e', 'n') {
        Some(21)
    } else if k == (11int, 'c', 'h', 'r') {
        Some(22)
    } else if k == (12int, 'c', 'o', 'n') {
        Some(23)
    } else if k == (9int, 'c', 'r', 'e') {
        Some(24)
    } else if k == (6int, 'd', 'e', 'g') {
        Some(25)
    } else if k == (9int, 'e', 'd', 'u') {
        Some(26)
    } else if k == (7int, 'e', 'l', 'e') {
        Some(27)
    } else if k == (10int, 'e', 'm', 'i') {
        Some(28)
    } else if k == (15int, 'f', 'i', 'r') {
        Some(29)
    } else if k == (11int, 'i', 'm', 'm') {
        Some(30)
    } else if k == (10int, 'g', 'r', 'a') {
        Some(31)
    } else if k == (19int, 'm', 'e', 'd') {
        Some(32)
    } else if k == (16int, 'm', 'i', 'l') {
        Some(33)
    } else if k == (14int, 'n', 'a', 't') {
        Some(34)
    } else if k == (14int, 'n', 'o', 'b') {
        Some(35)
    } else if k == (19int, 'n', 'u', 'm') {
        Some(36)
    } else if k == (10int, 'o', 'c', 'c') {
        Some(37)
    } else if k == (10int, 'o', 'r', 'd') {
        Some(38)
    } else if k == (7int, 'p', 'r', 'o') {
        Some(39)
    } else if k == (8int, 'p', 'r', 'o') {
        Some(40)
    } else if k == (8int, 'r', 'e', 'l') {
        Some(41)
    } else if k == (9int, 'r', 'e', 's') {
        Some(42)
    } else if k == (10int, 'r', 'e', 't') {
        Some(43)
    } else if k == (4int, 'w', 'i', 'l') {
        Some(44)
    } else {
        None
    }
}

proof fn lemma_capital_first(l: Seq<char>)
    requires
        l.len() >= 1,
        'A' <= l[0] <= 'Z',
    ensures
        'a' <= ascii_lower(l)[0] <= 'z',
{
}

/// The event type labels are ASCII, start with a letter, and their
/// lowercased length and first three characters tell them apart.
proof fn lemma_event_label_facts(v: int)
    requires
        -1 <= v <= 53,
        event_type_label_table(v as i32) is Some,
    ensures
        is_ascii_text(event_type_label_table(v as i32)->0),
        'a' <= ascii_lower(event_type_label_table(v as i32)->0)[0] <= 'z',
        event_label_owner(label_key(ascii_lower(event_type_label_table(v as i32)->0))) == Some(v),
{
    if v == -1 {
        reveal_strlit("Unknown");
        assert(ascii_from("Unknown"@, 0)) by {
            reveal_with_fuel(ascii_from, 20);
        }
        lemma_ascii_from("Unknown"@, 0);
        lemma_capital_first("Unknown"@);
    } else if v == 0 {
        reveal_strlit("Custom");
        assert(ascii_from("Custom"@, 0)) by {
            reveal_with_fuel(ascii_from, 20);
        }
        lemma_ascii_from("Custom"@, 0);
        lemma_capital_first("Custom"@);
    } else if v == 1 {
        reveal_strlit("Marriage");
        assert(ascii_from("Marriage"@, 0)) by {
            reveal_with_fuel(ascii_from, 20);
        }
        lemma_ascii_from("Marriage"@, 0);
        lemma_capital_first("Marriage"@);
    } else if v == 2 {
        reveal_strlit("Marriage Settlement");
        assert(ascii_from("Marriage Settlement"@, 0)) by {
            reveal_with_fuel(ascii_from, 20);
        }
        lemma_ascii_from("Marriage Settlement"@, 0);
        lemma_capital_first("Marriage Settlement"@);
    } else if v == 3 {
        reveal_strlit("Marriage License");
        assert(ascii_from("Marriage License"@, 0)) by {
            reveal_with_fuel(ascii_from, 20);
        }
        lemma_ascii_from("Marriage License"@, 0);
        lemma_capital_first("Marriage License"@);
    } else if v == 4 {
        reveal_strlit("Marriage Contract");
        assert(ascii_from("Marriage Contract"@, 0)) by {
            reveal_with_fuel(ascii_from, 20);
        }
        lemma_ascii_from("Marriage Contract"@, 0);
        lemma_capital_first("Marriage Contract"@);
    } else if v == 5 {
        reveal_strlit("Marriage Banns");
        assert(ascii_from("Marriage Banns"@, 0)) by {
            reveal_with_fuel(ascii_from, 20);
        }
        lemma_ascii_from("Marriage Banns"@, 0);
        lemma_capital_first("Marriage Banns"@);
    } else if v == 6 {
        reveal_strlit("Engagement");
        assert(ascii_from("Engagement"@, 0)) by {
            reveal_with_fuel(ascii_from, 20);
        }
        lemma_ascii_from("Engagement"@, 0);
        lemma_capital_first("Engagement"@);
    } else if v == 7 {
        reveal_strlit("Divorce");
        assert(ascii_from("Divorce"@, 0)) by {
            reveal_with_fuel(ascii_from, 20);
        }
        lemma_ascii_from("Divorce"@, 0);
        lemma_capital_first("Divorce"@);
    } else if v == 8 {
        reveal_strlit("Divorce Filing");
        assert(ascii_from("Divorce Filing"@, 0)) by {
            reveal_with_fuel(ascii_from, 20);
        }
        lemma_ascii_from("Divorce Filing"@, 0);
        lemma_capital_first("Divorce Filing"@);
    } else if v == 9 {
        reveal_strlit("Annulment");
        assert(ascii_from("Annulment"@, 0)) by {
            reveal_with_fuel(ascii_from, 20);
        }
        lemma_ascii_from("Annulment"@, 0);
        lemma_capital_first("Annulment"@);
    } else if v == 10 {
        reveal_strlit("Alternate Marriage");
        assert(ascii_from("Alternate Marriage"@, 0)) by {
            reveal_with_fuel(ascii_from, 20);
        }
        lemma_ascii_from("Alternate Marriage"@, 0);
        lemma_capital_first("Alternate Marriage"@);
    } else if v == 11 {
        reveal_strlit("Adopted");
        assert(ascii_from("Adopted"@, 0)) by {
            reveal_with_fuel(ascii_from, 20);
        }
        lemma_ascii_from("Adopted"@, 0);
        lemma_capital_first("Adopted"@);
    } else if v == 12 {
        reveal_strlit("Birth");
        assert(ascii_from("Birth"@, 0)) by {
            reveal_with_fuel(ascii_from, 20);
        }
        lemma_ascii_from("Birth"@, 0);
        lemma_capital_first("Birth"@);
    } else if v == 13 {
        reveal_strlit("Death");
        assert(ascii_from("Death"@, 0)) by {
            reveal_with_fuel(ascii_from, 20);
        }
        lemma_ascii_from("Death"@, 0);
        lemma_capital_first("Death"@);
    } else if v == 14 {
        reveal_strlit("Adult Christening");
        assert(ascii_from("Adult Christening"@, 0)) by {
            reveal_with_fuel(ascii_from, 20);
        }
        lemma_ascii_from("Adult Christening"@, 0);
        lemma_capital_first("Adult Christening"@);
    } else if v == 15 {
        reveal_strlit("Baptism");
        assert(ascii_from("Baptism"@, 0)) by {
            reveal_with_fuel(ascii_from, 20);
        }
        lemma_ascii_from("Baptism"@, 0);
        lemma_capital_first("Baptism"@);
    } else if v == 16 {
        reveal_strlit("Bar Mitzvah");
        assert(ascii_from("Bar Mitzvah"@, 0)) by {
            reveal_with_fuel(ascii_from, 20);
        }
        lemma_ascii_from("Bar Mitzvah"@, 0);
        lemma_capital_first("Bar Mitzvah"@);
    } else if v == 17 {
        reveal_strlit("Bas Mitzvah");
        assert(ascii_from("Bas Mitzvah"@, 0)) by {
            reveal_with_fuel(ascii_from, 20);
        }
        lemma_ascii_from("Bas Mitzvah"@, 0);
        lemma_capital_first("Bas Mitzvah"@);
    } else if v == 18 {
        reveal_strlit("Blessing");
        assert(ascii_from("Blessing"@, 0)) by {
            reveal_with_fuel(ascii_from, 20);
        }
        lemma_ascii_from("Blessing"@, 0);
        lemma_capital_first("Blessing"@);
    } else if v == 19 {
        reveal_strlit("Burial");
        assert(ascii_from("Burial"@, 0)) by {
            reveal_with_fuel(ascii_from, 20);
        }
        lemma_ascii_from("Burial"@, 0);
        lemma_capital_first("Burial"@);
    } else if v == 20 {
        reveal_strlit("Cause Of Death");
        assert(ascii_from("Cause Of Death"@, 0)) by {
            reveal_with_fuel(ascii_from, 20);
        }
        lemma_ascii_from("Cause Of Death"@, 0);
        lemma_capital_first("Cause Of Death"@);
    } else if v == 21 {
        reveal_strlit("Census");
        assert(ascii_from("Census"@, 0)) by {
            reveal_with_fuel(ascii_from, 20);
        }
        lemma_ascii_from("Census"@, 0);
        lemma_capital_first("Census"@);
    } else if v == 22 {
        reveal_strlit("Christening");
        assert(ascii_from("Christening"@, 0)) by {
            reveal_with_fuel(ascii_from, 20);
        }
        lemma_ascii_from("Christening"@, 0);
        lemma_capital_first("Christening"@);
    } else if v == 23 {
        reveal_strlit("Confirmation");
        assert(ascii_from("Confirmation"@, 0)) by {
            reveal_with_fuel(ascii_from, 20);
        }
        lemma_ascii_from("Confirmation"@, 0);
        lemma_capital_first("Confirmation"@);
    } else if v == 24 {
        reveal_strlit("Cremation");
        assert(ascii_from("Cremation"@, 0)) by {
            reveal_with_fuel(ascii_from, 20);
        }
        lemma_ascii_from("Cremation"@, 0);
        lemma_capital_first("Cremation"@);
    } else if v == 25 {
        reveal_strlit("Degree");
        assert(ascii_from("Degree"@, 0)) by {
            reveal_with_fuel(ascii_from, 20);
        }
        lemma_ascii_from("Degree"@, 0);
        lemma_capital_first("Degree"@);
    } else if v == 26 {
        reveal_strlit("Education");
        assert(ascii_from("Education"@, 0)) by {
            reveal_with_fuel(ascii_from, 20);
        }
        lemma_ascii_from("Education"@, 0);
        lemma_capital_first("Education"@);
    } else if v == 27 {
        reveal_strlit("Elected");
        assert(ascii_from("Elected"@, 0)) by {
            reveal_with_fuel(ascii_from, 20);
        }
        lemma_ascii_from("Elected"@, 0);
        lemma_capital_first("Elected"@);
    } else if v == 28 {
        reveal_strlit("Emigration");
        assert(ascii_from("Emigration"@, 0)) by {
            reveal_with_fuel(ascii_from, 20);
        }
        lemma_ascii_from("Emigration"@, 0);
        lemma_capital_first("Emigration"@);
    } else if v == 29 {
        reveal_strlit("First Communion");
        assert(ascii_from("First Communion"@, 0)) by {
            reveal_with_fuel(ascii_from, 20);
        }
        lemma_ascii_from("First Communion"@, 0);
        lemma_capital_first("First Communion"@);
    } else if v == 30 {
        reveal_strlit("Immigration");
        assert(ascii_from("Immigration"@, 0)) by {
            reveal_with_fuel(ascii_from, 20);
        }
        lemma_ascii_from("Immigration"@, 0);
        lemma_capital_first("Immigration"@);
    } else if v == 31 {
        reveal_strlit("Graduation");
        assert(ascii_from("Graduation"@, 0)) by {
            reveal_with_fuel(ascii_from, 20);
        }
        lemma_ascii_from("Graduation"@, 0);
        lemma_capital_first("Graduation"@);
    } else if v == 32 {
        reveal_strlit("Medical Information");
        assert(ascii_from("Medical Information"@, 0)) by {
            reveal_with_fuel(ascii_from, 20);
        }
        lemma_ascii_from("Medical Information"@, 0);
        lemma_capital_first("Medical Information"@);
    } else if v == 33 {
        reveal_strlit("Military Service");
        assert(ascii_from("Military Service"@, 0)) by {
            reveal_with_fuel(ascii_from, 20);
        }
        lemma_ascii_from("Military Service"@, 0);
        lemma_capital_first("Military Service"@);
    } else if v == 34 {
        reveal_strlit("Naturalization");
        assert(ascii_from("Naturalization"@, 0)) by {
            reveal_with_fuel(ascii_from, 20);
        }
        lemma_ascii_from("Naturalization"@, 0);
        lemma_capital_first("Naturalization"@);
    } else if v == 35 {
        reveal_strlit("Nobility Title");
        assert(ascii_from("Nobility Title"@, 0)) by {
            reveal_with_fuel(ascii_from, 20);
        }
        lemma_ascii_from("Nobility Title"@, 0);
        lemma_capital_first("Nobility Title"@);
    } else if v == 36 {
        reveal_strlit("Number of Marriages");
        assert(ascii_from("Number of Marriages"@, 0)) by {
            reveal_with_fuel(ascii_from, 20);
        }
        lemma_ascii_from("Number of Marriages"@, 0);
        lemma_capital_first("Number of Marriages"@);
    } else if v == 37 {
        reveal_strlit("Occupation");
        assert(ascii_from("Occupation"@, 0)) by {
            reveal_with_fuel(ascii_from, 20);
        }
        lemma_ascii_from("Occupation"@, 0);
        lemma_capital_first("Occupation"@);
    } else if v == 38 {
        reveal_strlit("Ordination");
        assert(ascii_from("Ordination"@, 0)) by {
            reveal_with_fuel(ascii_from, 20);
        }
        lemma_ascii_from("Ordination"@, 0);
        lemma_capital_first("Ordination"@);
    } else if v == 39 {
        reveal_strlit("Probate");
        assert(ascii_from("Probate"@, 0)) by {
            reveal_with_fuel(ascii_from, 20);
        }
        lemma_ascii_from("Probate"@, 0);
        lemma_capital_first("Probate"@);
    } else if v == 40 {
        reveal_strlit("Property");
        assert(ascii_from("Property"@, 0)) by {
            reveal_with_fuel(ascii_from, 20);
        }
        lemma_ascii_from("Property"@, 0);
        lemma_capital_first("Property"@);
    } else if v == 41 {
        reveal_strlit("Religion");
        assert(ascii_from("Religion"@, 0)) by {
            reveal_with_fuel(ascii_from, 20);
        }
        lemma_ascii_from("Religion"@, 0);
        lemma_capital_first("Religion"@);
    } else if v == 42 {
        reveal_strlit("Residence");
        assert(ascii_from("Residence"@, 0)) by {
            reveal_with_fuel(ascii_from, 20);
        }
        lemma_ascii_from("Residence"@, 0);
        lemma_capital_first("Residence"@);
    } else if v == 43 {
        reveal_strlit("Retirement");
        assert(ascii_from("Retirement"@, 0)) by {
            reveal_with_fuel(ascii_from, 20);
        }
        lemma_ascii_from("Retirement"@, 0);
        lemma_capital_first("Retirement"@);
    } else if v == 44 {
        reveal_strlit("Will");
        assert(ascii_from("Will"@, 0)) by {
            reveal_with_fuel(ascii_from, 20);
        }
        lemma_ascii_from("Will"@, 0);
        lemma_capital_first("Will"@);
    }
}

proof fn lemma_label_match_finds(lo: int, v: int, needle: Seq<char>)
    requires
        -1 <= lo <= v <= 53,
        event_type_label_table(v as i32) matches Some(l) && lower_text(l) == needle,
        forall|u: int|
            lo <= u < v ==> match #[trigger] event_type_label_table(u as i32) {
                Some(l) => lower_text(l) != needle,
                None => true,
            },
    ensures
        event_label_match(lo, needle) == Some(v as i32),
    decreases v - lo,
{
    if lo < v {
        lemma_label_match_finds(lo + 1, v, needle);
    }
}

/// Every event type label, in any letter case (`Birth`, `BIRTH`,
/// `birth`), names its event type.
pub proof fn lemma_event_label_round_trip(v: i32, s: Seq<char>)
    requires
        event_type_label_table(v) is Some,
        ascii_lower(s) == ascii_lower(event_type_label_table(v)->0),
    ensures
        event_type_arg(s) == Some(v),
{
    let l = event_type_label_table(v)->0;
    let needle = ascii_lower(l);
    lemma_event_label_facts(v as int);
    assert(-1 <= v <= 44);
    assert(s.len() == l.len());
    assert(is_ascii_text(s)) by {
        assert forall|i: int| 0 <= i < s.len() implies (#[trigger] s[i] as int) < 128 by {
            assert(ascii_lower(s)[i] == needle[i]);
            assert((l[i] as int) < 128);
        }
    }
    assert(lower_text(s) == needle);
    assert(lower_text(l) == needle);
    assert(parse_i32_spec(s) is None) by {
        assert(ascii_lower(s)[0] == needle[0]);
        assert(!('0' <= s[0] <= '9'));
    }
    assert forall|u: int|
        -1 <= u < v implies match #[trigger] event_type_label_table(u as i32) {
            Some(m) => lower_text(m) != needle,
            None => true,
        } by {
        if event_type_label_table(u as i32) is Some {
            lemma_event_label_facts(u);
        }
    }
    lemma_label_match_finds(-1, v as int, needle);
}

/// An event type argument: a number, or an event type label in any case
/// (`Birth`, `birth`, `12`).
pub fn parse_event_type(s: &str) -> (r: Option<i32>)
    ensures
        r == event_type_arg(s@),
{
    if let Some(n) = parse_i32(s) {
        return Some(n);
    }
    let needle = to_lowercase(s);
    let mut v: i32 = -1;
    while v <= 53
        invariant
            -1 <= v <= 54,
            parse_i32_spec(s@) is None,
            needle@ == lower_text(s@),
            event_label_match(-1, lower_text(s@)) == event_label_match(v as int, lower_text(s@)),
        decreases 54 - v,
    {
        if let Some(label) = event_type_label(v) {
            let l = to_lowercase(label);
            if crate::text::str_eq(l.as_str(), needle.as_str()) {
                return Some(v);
            }
        }
        v = v + 1;
    }
    None
}

/// The place type whose lowercased label has length and first three
/// characters `k`.
spec fn place_label_owner(k: (int, char, char, char)) -> Option<int> {
    if k == (7int, 'u', 'n', 'k') {
        Some(-1)
    } else if k == (6int, 'c', 'u', 's') {
        Some(0)
    } else if k == (7int, 'c', 'o', 'u') {
        Some(1)
    } else if k == (5int, 's', 't', 'a') {
        Some(2)
    } else if k == (6int, 'c', 'o', 'u') {
        Some(3)
    } else if k == (4int, 'c', 'i', 't') {
        Some(4)
    } else if k == (6int, 'p', 'a', 'r') {
        Some(5)
    } else if k == (8int, 'l', 'o', 'c') {
        Some(6)
    } else if k == (6int, 's', 't', 'r') {
        Some(7)
    } else if k == (8int, 'p', 'r', 'o') {
        Some(8)
    } else if k == (6int, 'r', 'e', 'g') {
        Some(9)
    } else if k == (10int, 'd', 'e', 'p') {
        Some(10)
    } else if k == (12int, 'n', 'e', 'i') {
        Some(11)
    } else if k == (8int, 'd', 'i', 's') {
        Some(12)
    } else if k == (7int, 'b', 'o', 'r') {
        Some(13)
    } else if k == (12int, 'm', 'u', 'n') {
        Some(14)
    } else if k == (4int, 't', 'o', 'w') {
        Some(15)
    } else if k == (7int, 'v', 'i', 'l') {
        Some(16)
    } else if k == (6int, 'h', 'a', 'm') {
        Some(17)
    } else if k == (4int, 'f', 'a', 'r') {
        Some(18)
    } else if k == (8int, 'b', 'u', 'i') {
        Some(19)
    } else if k == (6int, 'n', 'u', 'm') {
        Some(20)
    } else {
        None
    }
}

/// The place type labels are ASCII, start with a letter, and their
/// lowercased length and first three characters tell them apart.
proof fn lemma_place_label_facts(v: int)
    requires
        -1 <= v <= 20,
        place_type_label_table(v as i32) is Some,
    ensures
        is_ascii_text(place_type_label_table(v as i32)->0),
        'a' <= ascii_lower(place_type_label_table(v as i32)->0)[0] <= 'z',
        place_label_owner(label_key(ascii_lower(place_type_label_table(v as i32)->0))) == Some(v),
{
    if v == -1 {
        reveal_strlit("Unknown");
        assert(ascii_from("Unknown"@, 0)) by {
            reveal_with_fuel(ascii_from, 20);
        }
        lemma_ascii_from("Unknown"@, 0);
        lemma_capital_first("Unknown"@);
    } else if v == 0 {
        reveal_strlit("Custom");
        assert(ascii_from("Custom"@, 0)) by {
            reveal_with_fuel(ascii_from, 20);
        }
        lemma_ascii_from("Custom"@, 0);
        lemma_capital_first("Custom"@);
    } else if v == 1 {
        reveal_strlit("Country");
        assert(ascii_from("Country"@, 0)) by {
            reveal_with_fuel(ascii_from, 20);
        }
        lemma_ascii_from("Country"@, 0);
        lemma_capital_first("Country"@);
    } else if v == 2 {
        reveal_strlit("State");
        assert(ascii_from("State"@, 0)) by {
            reveal_with_fuel(ascii_from, 20);
        }
        lemma_ascii_from("State"@, 0);
        lemma_capital_first("State"@);
    } else if v == 3 {
        reveal_strlit("County");
        assert(ascii_from("County"@, 0)) by {
            reveal_with_fuel(ascii_from, 20);
        }
        lemma_ascii_from("County"@, 0);
        lemma_capital_first("County"@);
    } else if v == 4 {
        reveal_strlit("City");
        assert(ascii_from("City"@, 0)) by {
            reveal_with_fuel(ascii_from, 20);
        }
        lemma_ascii_from("City"@, 0);
        lemma_capital_first("City"@);
    } else if v == 5 {
        reveal_strlit("Parish");
        assert(ascii_from("Parish"@, 0)) by {
            reveal_with_fuel(ascii_from, 20);
        }
        lemma_ascii_from("Parish"@, 0);
        lemma_capital_first("Parish"@);
    } else if v == 6 {
        reveal_strlit("Locality");
        assert(ascii_from("Locality"@, 0)) by {
            reveal_with_fuel(ascii_from, 20);
        }
        lemma_ascii_from("Locality"@, 0);
        lemma_capital_first("Locality"@);
    } else if v == 7 {
        reveal_strlit("Street");
        assert(ascii_from("Street"@, 0)) by {
            reveal_with_fuel(ascii_from, 20);
        }
        lemma_ascii_from("Street"@, 0);
        lemma_capital_first("Street"@);
    } else if v == 8 {
        reveal_strlit("Province");
        assert(ascii_from("Province"@, 0)) by {
            reveal_with_fuel(ascii_from, 20);
        }
        lemma_ascii_from("Province"@, 0);
        lemma_capital_first("Province"@);
    } else if v == 9 {
        reveal_strlit("Region");
        assert(ascii_from("Region"@, 0)) by {
            reveal_with_fuel(ascii_from, 20);
        }
        lemma_ascii_from("Region"@, 0);
        lemma_capital_first("Region"@);
    } else if v == 10 {
        reveal_strlit("Department");
        assert(ascii_from("Department"@, 0)) by {
            reveal_with_fuel(ascii_from, 20);
        }
        lemma_ascii_from("Department"@, 0);
        lemma_capital_first("Department"@);
    } else if v == 11 {
        reveal_strlit("Neighborhood");
        assert(ascii_from("Neighborhood"@, 0)) by {
            reveal_with_fuel(ascii_from, 20);
        }
        lemma_ascii_from("Neighborhood"@, 0);
        lemma_capital_first("Neighborhood"@);
    } else if v == 12 {
        reveal_strlit("District");
        assert(ascii_from("District"@, 0)) by {
            reveal_with_fuel(ascii_from, 20);
        }
        lemma_ascii_from("District"@, 0);
        lemma_capital_first("District"@);
    } else if v == 13 {
        reveal_strlit("Borough");
        assert(ascii_from("Borough"@, 0)) by {
            reveal_with_fuel(ascii_from, 20);
        }
        lemma_ascii_from("Borough"@, 0);
        lemma_capital_first("Borough"@);
    } else if v == 14 {
        reveal_strlit("Municipality");
        assert(ascii_from("Municipality"@, 0)) by {
            reveal_with_fuel(ascii_from, 20);
        }
        lemma_ascii_from("Municipality"@, 0);
        lemma_capital_first("Municipality"@);
    } else if v == 15 {
        reveal_strlit("Town");
        assert(ascii_from("Town"@, 0)) by {
            reveal_with_fuel(ascii_from, 20);
        }
        lemma_ascii_from("Town"@, 0);
        lemma_capital_first("Town"@);
    } else if v == 16 {
        reveal_strlit("Village");
        assert(ascii_from("Village"@, 0)) by {
            reveal_with_fuel(ascii_from, 20);
        }
        lemma_ascii_from("Village"@, 0);
        lemma_capital_first("Village"@);
    } else if v == 17 {
        reveal_strlit("Hamlet");
        assert(ascii_from("Hamlet"@, 0)) by {
            reveal_with_fuel(ascii_from, 20);
        }
        lemma_ascii_from("Hamlet"@, 0);
        lemma_capital_first("Hamlet"@);
    } else if v == 18 {
        reveal_strlit("Farm");
        assert(ascii_from("Farm"@, 0)) by {
            reveal_with_fuel(ascii_from, 20);
        }
        lemma_ascii_from("Farm"@, 0);
        lemma_capital_first("Farm"@);
    } else if v == 19 {
        reveal_strlit("Building");
        assert(ascii_from("Building"@, 0)) by {
            reveal_with_fuel(ascii_from, 20);
        }
        lemma_ascii_from("Building"@, 0);
        lemma_capital_first("Building"@);
    } else if v == 20 {
        reveal_strlit("Number");
        assert(ascii_from("Number"@, 0)) by {
            reveal_with_fuel(ascii_from, 20);
        }
        lemma_ascii_from("Number"@, 0);
        lemma_capital_first("Number"@);
    }
}

proof fn lemma_place_match_finds(lo: int, v: int, needle: Seq<char>)
    requires
        -1 <= lo <= v <= 20,
        place_type_label_table(v as i32) matches Some(l) && lower_text(l) == needle,
        forall|u: int|
            lo <= u < v ==> match #[trigger] place_type_label_table(u as i32) {
                Some(l) => lower_text(l) != needle,
                None => true,
            },
    ensures
        place_label_match(lo, needle) == Some(v as i32),
    decreases v - lo,
{
    if lo < v {
        lemma_place_match_finds(lo + 1, v, needle);
    }
}

/// The place type an argument names: its number, else the first place
/// type whose label lowercases as the argument does.
pub open spec fn place_type_arg(s: Seq<char>) -> Option<i32> {
    match parse_i32_spec(s) {
        Some(n) => Some(n),
        None => place_label_match(-1, lower_text(s)),
    }
}

/// Every place type label, in any letter case (`City`, `CITY`, `city`),
/// names its place type.
pub proof fn lemma_place_label_round_trip(v: i32, s: Seq<char>)
    requires
        place_type_label_table(v) is Some,
        ascii_lower(s) == ascii_lower(place_type_label_table(v)->0),
    ensures
        place_type_arg(s) == Some(v),
{
    let l = place_type_label_table(v)->0;
    let needle = ascii_lower(l);
    lemma_place_label_facts(v as int);
    assert(s.len() == l.len());
    assert(is_ascii_text(s)) by {
        assert forall|i: int| 0 <= i < s.len() implies (#[trigger] s[i] as int) < 128 by {
            assert(ascii_lower(s)[i] == needle[i]);
            assert((l[i] as int) < 128);
        }
    }
    assert(lower_text(s) == needle);
    assert(parse_i32_spec(s) is None) by {
        assert(ascii_lower(s)[0] == needle[0]);
        assert(!('0' <= s[0] <= '9'));
    }
    assert forall|u: int|
        -1 <= u < v implies match #[trigger] place_type_label_table(u as i32) {
            Some(m) => lower_text(m) != needle,
            None => true,
        } by {
        if place_type_label_table(u as i32) is Some {
            lemma_place_label_facts(u);
        }
    }
    lemma_place_match_finds(-1, v as int, needle);
}

/// A place type argument: a number, or a place type label in any case
/// (`City`, `city`, `4`).
pub fn parse_place_type(s: &str) -> (r: Option<i32>)
    ensures
        r == place_type_arg(s@),
{
    if let Some(n) = parse_i32(s) {
        return Some(n);
    }
    let needle = to_lowercase(s);
    let mut v: i32 = -1;
    while v <= 20
        invariant
            -1 <= v <= 21,
            parse_i32_spec(s@) is None,
            needle@ == lower_text(s@),
            place_label_match(-1, lower_text(s@)) == place_label_match(v as int, lower_text(s@)),
        decreases 21 - v,
    {
        if let Some(label) = place_type_label(v) {
            let l = to_lowercase(label);
            if crate::text::str_eq(l.as_str(), needle.as_str()) {
                return Some(v);
            }
        }
        v = v + 1;
    }
    None
}

/// The row an id names: the row with that handle, else the first row with
/// that gramps id.
pub open spec fn id_target<T: Keyed + HasGrampsId>(rows: Seq<T>, id: Seq<char>) -> Option<int> {
    match find_key(rows, id) {
        Some(i) => Some(i),
        None => find_gid_spec(rows, id),
    }
}

/// Resolve an id given on the command line (a handle or a gramps id) to a
/// row position: handle first, then gramps id.
pub fn resolve_id<T: Keyed + HasGrampsId>(rows: &Vec<T>, id: &str) -> (r: Option<usize>)
    ensures
        match r {
            Some(i) => id_target(rows@, id@) == Some(i as int) && i < rows@.len(),
            None => id_target(rows@, id@) is None,
        },
{
    if let Some(i) = find(rows, id) {
        return Some(i);
    }
    find_gid(rows, id)
}

/// The date of the first event, in link order, of the given type that the
/// person links to; the walk stops at a link to a missing event.
pub open spec fn typed_date(tree: Snapshot, list: Seq<EventRef>, want: i32) -> Option<Date>
    decreases list.len(),
{
    if list.len() == 0 {
        None
    } else {
        match lookup(tree.events@, list[0].ref_@) {
            None => None,
            Some(e) => if e.type_.value == want {
                e.date
            } else {
                typed_date(tree, list.drop_first(), want)
            },
        }
    }
}

/// The date of the person's first linked event of type `want_type` (12
/// birth, 13 death), used to keep a date an update does not change.
pub fn read_event_date<'a>(tree: &'a Snapshot, p: &Person, want_type: i32) -> (r: Option<&'a Date>)
    ensures
        match r {
            Some(d) => typed_date(*tree, p.event_ref_list@, want_type) == Some(*d),
            None => typed_date(*tree, p.event_ref_list@, want_type) is None,
        },
{
    let mut k: usize = 0;
    assert(p.event_ref_list@.subrange(0, p.event_ref_list@.len() as int) =~= p.event_ref_list@);
    while k < p.event_ref_list.len()
        invariant
            k <= p.event_ref_list@.len(),
            typed_date(*tree, p.event_ref_list@, want_type) == typed_date(*tree, p.event_ref_list@.subrange(k as int, p.event_ref_list@.len() as int), want_type),
        decreases p.event_ref_list.len() - k,
    {
        let ghost rest = p.event_ref_list@.subrange(k as int, p.event_ref_list@.len() as int);
        assert(rest.drop_first() =~= p.event_ref_list@.subrange(k + 1, p.event_ref_list@.len() as int));
        assert(rest[0] == p.event_ref_list@[k as int]);
        let e = match tree.event(p.event_ref_list[k].ref_.as_str()) {
            Some(e) => e,
            None => return None,
        };
        if e.type_.value == want_type {
            return match &e.date {
                Some(d) => Some(d),
                None => None,
            };
        }
        k = k + 1;
    }
    assert(p.event_ref_list@.subrange(k as int, p.event_ref_list@.len() as int) =~= Seq::<EventRef>::empty());
    None
}

/// One person as the tool lists it.
#[derive(Debug, Clone)]
pub struct PersonSummary {
    pub handle: String,
    pub gramps_id: String,
    pub name: String,
    pub gender: &'static str,
    /// The event the birth index links to.
    pub birth_event: Option<String>,
    /// The event the death index links to.
    pub death_event: Option<String>,
}

fn linked_handle(list: &Vec<EventRef>, idx: i32) -> (r: Option<String>)
    ensures
        match r {
            Some(h) => linked_event(list@, idx) == Some(h@),
            None => linked_event(list@, idx) is None,
        },
{
    if idx >= 0 && (idx as usize) < list.len() {
        Some(list[idx as usize].ref_.clone())
    } else {
        None
    }
}

/// The summary of a person the tool lists.
pub fn person_summary(p: &Person) -> (r: PersonSummary)
    ensures
        r.handle@ == p.handle@,
        r.gramps_id@ == p.gramps_id@,
        r.name@ == name_display(p.primary_name),
        r.gender@ == gender_label_table(p.gender),
        match r.birth_event {
            Some(h) => linked_event(p.event_ref_list@, p.birth_ref_index) == Some(h@),
            None => linked_event(p.event_ref_list@, p.birth_ref_index) is None,
        },
        match r.death_event {
            Some(h) => linked_event(p.event_ref_list@, p.death_ref_index) == Some(h@),
            None => linked_event(p.event_ref_list@, p.death_ref_index) is None,
        },
{
    PersonSummary {
        handle: p.handle.clone(),
        gramps_id: p.gramps_id.clone(),
        name: p.primary_name.display(),
        gender: gender_label(p.gender),
        birth_event: linked_handle(&p.event_ref_list, p.birth_ref_index),
        death_event: linked_handle(&p.event_ref_list, p.death_ref_index),
    }
}

/// A person matches a search: the lowercased query occurs in the
/// lowercased gramps id or display name.
pub open spec fn person_hit(p: Person, q: Seq<char>) -> bool {
    has_substring(lowercase(p.gramps_id@), q) || has_substring(lowercase(name_display(p.primary_name)), q)
}

/// A place matches a search: the lowercased query occurs in the
/// lowercased gramps id or name.
pub open spec fn place_hit(p: crate::gramps::place::Place, q: Seq<char>) -> bool {
    has_substring(lowercase(p.gramps_id@), q) || has_substring(lowercase(p.name.value@), q)
}

/// With room for every row, the hits are exactly the rows `hit` accepts,
/// in order.
pub proof fn lemma_first_hits_all<T>(s: Seq<T>, hit: spec_fn(T) -> bool, limit: nat, i: int)
    requires
        limit >= s.len(),
        0 <= i < s.len(),
        hit(s[i]),
    ensures
        first_hits(s, hit, limit).contains(i),
    decreases s.len(),
{
    lemma_first_hits_len(s, hit, limit);
    if i < s.len() - 1 {
        lemma_first_hits_all(s.drop_last(), hit, limit, i);
        let prev = first_hits(s.drop_last(), hit, limit);
        let k = choose|k: int| 0 <= k < prev.len() && prev[k] == i;
        if hit(s.last()) && prev.len() < limit {
            assert(prev.push(s.len() - 1)[k] == i);
        }
    } else {
        lemma_first_hits_len(s.drop_last(), hit, limit);
        let prev = first_hits(s.drop_last(), hit, limit);
        assert(prev.push(s.len() - 1)[prev.len() as int] == i);
    }
}

/// The hits are rows `hit` accepts, in increasing table order, and at
/// most `limit` of them.
pub proof fn lemma_first_hits_shape<T>(s: Seq<T>, hit: spec_fn(T) -> bool, limit: nat)
    ensures
        first_hits(s, hit, limit).len() <= limit,
        forall|k: int|
            0 <= k < first_hits(s, hit, limit).len() ==> 0 <= #[trigger] first_hits(s, hit, limit)[k] < s.len() && hit(
                s[first_hits(s, hit, limit)[k]],
            ),
        forall|j: int, k: int|
            0 <= j < k < first_hits(s, hit, limit).len() ==> #[trigger] first_hits(s, hit, limit)[j] < #[trigger] first_hits(
                s,
                hit,
                limit,
            )[k],
    decreases s.len(),
{
    if s.len() > 0 {
        let d = s.drop_last();
        lemma_first_hits_shape(d, hit, limit);
        let prev = first_hits(d, hit, limit);
        assert forall|k: int| 0 <= k < prev.len() implies s[prev[k]] == d[prev[k]] by {}
    }
}

proof fn lemma_first_hits_len<T>(s: Seq<T>, hit: spec_fn(T) -> bool, limit: nat)
    ensures
        first_hits(s, hit, limit).len() <= s.len(),
    decreases s.len(),
{
    if s.len() > 0 {
        lemma_first_hits_len(s.drop_last(), hit, limit);
    }
}

/// A person search finds a person by surname as well as by first name:
/// when the lowercased query occurs in the lowercased `first surname`
/// (or in the lowercased gramps id), the person is a hit, and with room
/// for every row the search returns them.
pub proof fn lemma_search_finds_full_name(persons: Seq<Person>, q: Seq<char>, limit: nat, i: int)
    requires
        0 <= i < persons.len(),
        limit >= persons.len(),
        ({
            let n = persons[i].primary_name;
            let f = n.first_name@;
            let s = crate::gramps::person::display_surname(n.surname_list@);
            ||| has_substring(lowercase(persons[i].gramps_id@), q)
            ||| f.len() > 0 && s.len() > 0 && has_substring(lowercase(f + " "@ + s), q)
            ||| f.len() == 0 && has_substring(lowercase(s), q)
            ||| s.len() == 0 && has_substring(lowercase(f), q)
        }),
    ensures
        person_hit(persons[i], q),
        first_hits(persons, |p: Person| person_hit(p, q), limit).contains(i),
{
    let n = persons[i].primary_name;
    let f = n.first_name@;
    let s = crate::gramps::person::display_surname(n.surname_list@);
    if f.len() > 0 && s.len() > 0 {
        assert(name_display(n) == f + " "@ + s);
    } else if f.len() == 0 {
        assert(name_display(n) == s);
    } else {
        assert(name_display(n) == f);
    }
    if f.len() == 0 && s.len() == 0 {
        assert(f =~= s);
    }
    assert(person_hit(persons[i], q));
    lemma_first_hits_all(persons, |p: Person| person_hit(p, q), limit, i);
}

/// The positions, in order, of the first `limit` rows of `s` that `hit`
/// accepts.
pub open spec fn first_hits<T>(s: Seq<T>, hit: spec_fn(T) -> bool, limit: nat) -> Seq<int>
    decreases s.len(),
{
    if s.len() == 0 {
        Seq::empty()
    } else {
        let prev = first_hits(s.drop_last(), hit, limit);
        if hit(s.last()) && prev.len() < limit {
            prev.push(s.len() - 1)
        } else {
            prev
        }
    }
}

/// The persons matching `query` (case-insensitive substring of gramps id
/// or display name), at most `limit` of them, in table order.
pub fn search_persons(tree: &Snapshot, query: &str, limit: usize) -> (r: Vec<usize>)
    ensures
        r@.len() == first_hits(tree.persons@, |p: Person| person_hit(p, lowercase(query@)), limit as nat).len(),
        forall|k: int| 0 <= k < r@.len() ==> #[trigger] r@[k] as int == first_hits(tree.persons@, |p: Person| person_hit(p, lowercase(query@)), limit as nat)[k],
{
    let q = to_lowercase(query);
    let ghost hit = |p: Person| person_hit(p, lowercase(query@));
    let mut out: Vec<usize> = Vec::new();
    let mut i: usize = 0;
    while i < tree.persons.len()
        invariant
            i <= tree.persons@.len(),
            q@ == lowercase(query@),
            hit == |p: Person| person_hit(p, lowercase(query@)),
            out@.len() == first_hits(tree.persons@.subrange(0, i as int), hit, limit as nat).len(),
            forall|k: int| 0 <= k < out@.len() ==> #[trigger] out@[k] as int == first_hits(tree.persons@.subrange(0, i as int), hit, limit as nat)[k],
        decreases tree.persons.len() - i,
    {
        let ghost pre = tree.persons@.subrange(0, i as int);
        let ghost next = tree.persons@.subrange(0, i + 1);
        assert(next.drop_last() =~= pre);
        let p = &tree.persons[i];
        let gid = to_lowercase(p.gramps_id.as_str());
        let name = p.primary_name.display();
        let name_l = to_lowercase(name.as_str());
        let is_hit = contains_str(gid.as_str(), q.as_str()) || contains_str(name_l.as_str(), q.as_str());
        assert(is_hit == hit(next.last()));
        if is_hit && out.len() < limit {
            out.push(i);
        }
        i = i + 1;
    }
    assert(tree.persons@.subrange(0, tree.persons@.len() as int) =~= tree.persons@);
    out
}

/// The places matching `query` (case-insensitive substring of gramps id or
/// name), at most `limit` of them, in table order.
pub fn search_places(tree: &Snapshot, query: &str, limit: usize) -> (r: Vec<usize>)
    ensures
        r@.len() == first_hits(tree.places@, |p: crate::gramps::place::Place| place_hit(p, lowercase(query@)), limit as nat).len(),
        forall|k: int| 0 <= k < r@.len() ==> #[trigger] r@[k] as int == first_hits(tree.places@, |p: crate::gramps::place::Place| place_hit(p, lowercase(query@)), limit as nat)[k],
{
    let q = to_lowercase(query);
    let ghost hit = |p: crate::gramps::place::Place| place_hit(p, lowercase(query@));
    let mut out: Vec<usize> = Vec::new();
    let mut i: usize = 0;
    while i < tree.places.len()
        invariant
            i <= tree.places@.len(),
            q@ == lowercase(query@),
            hit == |p: crate::gramps::place::Place| place_hit(p, lowercase(query@)),
            out@.len() == first_hits(tree.places@.subrange(0, i as int), hit, limit as nat).len(),
            forall|k: int| 0 <= k < out@.len() ==> #[trigger] out@[k] as int == first_hits(tree.places@.subrange(0, i as int), hit, limit as nat)[k],
        decreases tree.places.len() - i,
    {
        let ghost pre = tree.places@.subrange(0, i as int);
        let ghost next = tree.places@.subrange(0, i + 1);
        assert(next.drop_last() =~= pre);
        let p = &tree.places[i];
        let gid = to_lowercase(p.gramps_id.as_str());
        let name_l = to_lowercase(p.name.value.as_str());
        let is_hit = contains_str(gid.as_str(), q.as_str()) || contains_str(name_l.as_str(), q.as_str());
        assert(is_hit == hit(next.last()));
        if is_hit && out.len() < limit {
            out.push(i);
        }
        i = i + 1;
    }
    assert(tree.places@.subrange(0, tree.places@.len() as int) =~= tree.places@);
    out
}


/// The surname a person update keeps when none is given: the first
/// surname of the primary name, or empty.
pub open spec fn kept_surname(p: Person) -> Seq<char> {
    if p.primary_name.surname_list@.len() > 0 {
        p.primary_name.surname_list@[0].surname@
    } else {
        Seq::empty()
    }
}

/// The surname of a person update: the one given, else [`kept_surname`].
pub fn update_surname(existing: &Person, arg: Option<String>) -> (r: String)
    ensures
        r@ == match arg {
            Some(s) => s@,
            None => kept_surname(*existing),
        },
{
    match arg {
        Some(s) => s,
        None => if existing.primary_name.surname_list.len() > 0 {
            existing.primary_name.surname_list[0].surname.clone()
        } else {
            String::new()
        },
    }
}

/// A parent of a family update: the current one when not given, none when
/// given empty, else the person the id names; an id that names no person
/// is given back as the error.
pub fn update_parent(tree: &Snapshot, arg: Option<String>, current: Option<String>) -> (r: Result<Option<String>, String>)
    ensures
        match arg {
            None => r == Ok::<Option<String>, String>(current),
            Some(s) => if s@.len() == 0 {
                r == Ok::<Option<String>, String>(None)
            } else {
                match id_target(tree.persons@, s@) {
                    Some(i) => r matches Ok(Some(h)) && h@ == tree.persons@[i].handle@,
                    None => r matches Err(e) && e@ == s@,
                }
            },
        },
{
    match arg {
        None => Ok(current),
        Some(s) => if s.as_str().is_empty() {
            Ok(None)
        } else {
            match resolve_id(&tree.persons, s.as_str()) {
                Some(i) => Ok(Some(tree.persons[i].handle.clone())),
                None => Err(s),
            }
        },
    }
}

/// How many rows a `list --limit` shows: all of them for 0, else at most
/// the limit.
pub fn list_count(limit: usize, len: usize) -> (r: usize)
    ensures
        r == if limit == 0 || limit > len {
            len
        } else {
            limit
        },
{
    if limit == 0 || limit > len {
        len
    } else {
        limit
    }
}

/// The year a person's birth or death is stored with when given as a date:
/// its primary year, none for a year of 0.
pub open spec fn stored_year_of(d: Option<Date>) -> Option<i32> {
    match d {
        Some(x) => if crate::gramps::date::date_primary_year(x) != 0 {
            Some(crate::gramps::date::date_primary_year(x))
        } else {
            None
        },
        None => None,
    }
}

/// The year a person's birth or death is stored with when given as a date
/// argument; see [`stored_year_of`].
pub fn stored_year(d: &Option<Date>) -> (r: Option<i32>)
    ensures
        r == stored_year_of(*d),
{
    match d {
        Some(x) => {
            let y = x.primary_year();
            if y != 0 {
                Some(y)
            } else {
                None
            }
        },
        None => None,
    }
}

/// The first name of a person update: the one given, else the current one.
pub fn update_first_name(existing: &Person, arg: Option<String>) -> (r: String)
    ensures
        r@ == match arg {
            Some(s) => s@,
            None => existing.primary_name.first_name@,
        },
{
    match arg {
        Some(s) => s,
        None => existing.primary_name.first_name.clone(),
    }
}

/// The gender of a person update: the one given, else the current one.
pub fn update_gender(existing: &Person, arg: Option<i32>) -> (r: i32)
    ensures
        r == match arg {
            Some(g) => g,
            None => existing.gender,
        },
{
    match arg {
        Some(g) => g,
        None => existing.gender,
    }
}

/// The birth or death year of a person update (`want_type` 12 or 13): none
/// when the clear flag is given; else the year of the date argument when
/// one is given (its error when it does not parse); else the year of the
/// person's current event of that type.
pub fn update_year(tree: &Snapshot, existing: &Person, want_type: i32, clear: bool, arg: Option<&str>) -> (r: Result<Option<i32>, DateArgError>)
    ensures
        clear ==> r == Ok::<Option<i32>, DateArgError>(None),
        !clear && arg is None ==> r == Ok::<Option<i32>, DateArgError>(stored_year_of(typed_date(*tree, existing.event_ref_list@, want_type))),
        !clear && arg is Some ==> match r {
            Ok(y) => exists|d: Option<Date>| date_arg(Some(arg->0@), Ok::<Option<Date>, DateArgError>(d)) && y == stored_year_of(d),
            Err(e) => date_arg(Some(arg->0@), Err::<Option<Date>, DateArgError>(e)),
        },
{
    if clear {
        return Ok(None);
    }
    match arg {
        Some(s) => match parse_date_opt(Some(s)) {
            Ok(d) => Ok(stored_year(&d)),
            Err(e) => Err(e),
        },
        None => match read_event_date(tree, existing, want_type) {
            Some(d) => {
                let y = d.primary_year();
                if y != 0 {
                    Ok(Some(y))
                } else {
                    Ok(None)
                }
            },
            None => Ok(None),
        },
    }
}

/// The relationship type of a family update: the one given, else the
/// current one.
pub fn update_family_type(existing: &Family, arg: Option<FamilyRelArg>) -> (r: i32)
    ensures
        r == match arg {
            Some(a) => match a {
                FamilyRelArg::Married => 0i32,
                FamilyRelArg::Unmarried => 1,
                FamilyRelArg::CivilUnion => 2,
                FamilyRelArg::Unknown => 3,
            },
            None => existing.type_.value,
        },
{
    match arg {
        Some(a) => a.as_i32(),
        None => existing.type_.value,
    }
}

/// A new family needs a father or a mother (or both).
pub fn family_has_parent(father: &Option<String>, mother: &Option<String>) -> (r: bool)
    ensures
        r == (father is Some || mother is Some),
{
    father.is_some() || mother.is_some()
}

} // verus!
