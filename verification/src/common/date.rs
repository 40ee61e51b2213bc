//! Calendar dates.
use std::cmp::Ordering;
use vstd::prelude::*;

use super::opt_view;
use crate::order::TotalOrder;
use crate::text::decimal_2;
use crate::utils::DateStyle;

verus! {

/// A date of the Gregorian calendar; `month` and `day` count from 1.
#[derive(Debug, Clone, Copy, PartialEq, Eq, Structural)]
pub struct Date {
    pub year: i32,
    pub month: u8,
    pub day: u8,
}

impl TotalOrder for Date {
    /// Whether this date is earlier.
    open spec fn before(&self, other: &Self) -> bool {
        ||| self.year < other.year
        ||| self.year == other.year && self.month < other.month
        ||| self.year == other.year && self.month == other.month && self.day < other.day
    }

    proof fn law_irreflexive(a: &Self) {
    }

    proof fn law_transitive(a: &Self, b: &Self, c: &Self) {
    }

    fn compare(&self, other: &Self) -> (r: Ordering) {
        if self.year < other.year {
            Ordering::Less
        } else if self.year > other.year {
            Ordering::Greater
        } else if self.month < other.month {
            Ordering::Less
        } else if self.month > other.month {
            Ordering::Greater
        } else if self.day < other.day {
            Ordering::Less
        } else if self.day > other.day {
            Ordering::Greater
        } else {
            Ordering::Equal
        }
    }
}

/// How many days a month has; none where there is no such month.
pub open spec fn days_in_month(year: int, month: int) -> int {
    if month == 2 {
        if year % 4 == 0 && (year % 100 != 0 || year % 400 == 0) {
            29
        } else {
            28
        }
    } else if month == 4 || month == 6 || month == 9 || month == 11 {
        30
    } else if 1 <= month <= 12 {
        31
    } else {
        0
    }
}

/// Whether the calendar has such a day.
pub open spec fn is_calendar_day(year: int, month: int, day: int) -> bool {
    1 <= day <= days_in_month(year, month)
}

/// A date as year, month and day with dashes between them: the year in four digits behind a sign where it
/// is negative, the month and the day in two.
pub open spec fn dashed_date(year: int, month: int, day: int) -> Seq<char> {
    let years = if year < 0 {
        -year
    } else {
        year
    };
    (if year < 0 {
        seq!['-']
    } else {
        seq![]
    }) + decimal_2(years / 100) + decimal_2(years % 100) + seq!['-'] + decimal_2(month) + seq!['-']
        + decimal_2(day)
}

/// What the `time` crate writes for a date in the form that a description in its notation gives;
/// nothing where there is no such date or no such form.
pub uninterp spec fn date_text(year: int, month: int, day: int, description: Seq<char>) -> Option<
    Seq<char>,
>;

/// `time::Date::format`, with the date and the form made by `Date::from_calendar_date` and
/// `format_description::parse_borrowed`. A day that the calendar does not have is not written; in the form
/// of a release the others are written with dashes, where the year has at most four digits.
#[verifier::external_body]
fn format_date(year: i32, month: u8, day: u8, description: &str) -> (r: Option<String>)
    ensures
        opt_view(r) == date_text(year as int, month as int, day as int, description@),
        !is_calendar_day(year as int, month as int, day as int) ==> r is None,
        description@ == RELEASE_DATE_FORM@ && -9999 <= year <= 9999 && is_calendar_day(
            year as int,
            month as int,
            day as int,
        ) ==> opt_view(r) == Some(dashed_date(year as int, month as int, day as int)),
{
    let month = time::Month::try_from(month).ok()?;
    let date = time::Date::from_calendar_date(year, month, day).ok()?;
    let form = time::format_description::parse_borrowed::<1>(description).ok()?;
    date.format(&form).ok()
}

/// What the `time` crate writes for a moment, given in seconds since the Unix epoch, at an offset from
/// UTC in seconds, in the form that a description in its notation gives; nothing where there is no such
/// moment, offset or form.
pub uninterp spec fn moment_text(seconds: int, offset: int, description: Seq<char>) -> Option<
    Seq<char>,
>;

/// `time::OffsetDateTime::format`, with the moment and the form made by
/// `OffsetDateTime::from_unix_timestamp`, `checked_to_offset` and `format_description::parse_owned`.
#[verifier::external_body]
fn format_moment(seconds: i64, offset: i32, description: &str) -> (r: Option<String>)
    ensures
        opt_view(r) == moment_text(seconds as int, offset as int, description@),
{
    let moment = time::OffsetDateTime::from_unix_timestamp(seconds).ok()?;
    let offset = time::UtcOffset::from_whole_seconds(offset).ok()?;
    let form = time::format_description::parse_owned::<2>(description).ok()?;
    moment.checked_to_offset(offset)?.format(&form).ok()
}

/// How the date of a release is written.
pub const RELEASE_DATE_FORM: &'static str = "[year]-[month]-[day]";

/// The date of a release as it is shown: a dash where it is not known.
pub fn release_date_label(date: Option<Date>) -> (r: Option<String>)
    ensures
        opt_view(r) == (match date {
            Some(d) => date_text(d.year as int, d.month as int, d.day as int, RELEASE_DATE_FORM@),
            None => Some("-"@),
        }),
        date matches Some(d) ==> {
            let (year, month, day) = (d.year as int, d.month as int, d.day as int);
            &&& !is_calendar_day(year, month, day) ==> r is None
            &&& is_calendar_day(year, month, day) && -9999 <= year <= 9999 ==> opt_view(r) == Some(
                dashed_date(year, month, day),
            )
        },
{
    match date {
        Some(d) => format_date(d.year, d.month, d.day, RELEASE_DATE_FORM),
        None => Some("-".to_string()),
    }
}

/// A moment as it is shown: at the offset of the machine's time zone where that is known, else in UTC,
/// and in the style of dates that the user is used to.
pub fn format_datetime_local_tz(seconds: i64, offset: Option<i32>, style: DateStyle) -> (r: Option<
    String,
>)
    ensures
        opt_view(r) == moment_text(
            seconds as int,
            match offset {
                Some(o) => o as int,
                None => 0,
            },
            style.spec_text(),
        ),
{
    format_moment(seconds, offset.unwrap_or(0), style.description())
}

/// Dates come in the order of time.
pub proof fn law_dates_come_in_order(a: Date, b: Date)
    ensures
        a.before(&b) <==> a.year * 65536 + a.month * 256 + a.day < b.year * 65536 + b.month * 256
            + b.day,
{
}

/// Every fourth year has a leap day, but for those that begin a century, of which every fourth has one. The
/// other months are of one length in all years.
pub proof fn law_calendar(year: int, other: int, month: int)
    requires
        1 <= month <= 12,
    ensures
        month != 2 ==> days_in_month(year, month) == days_in_month(other, month),
        month == 2 ==> days_in_month(year, month) == 28 || days_in_month(year, month) == 29,
        days_in_month(year, 2) == 29 <==> year % 4 == 0 && !(year % 100 == 0 && year % 400 != 0),
        days_in_month(year + 400, month) == days_in_month(year, month),
        days_in_month(year, 1) + days_in_month(year, 3) + days_in_month(year, 4) + days_in_month(
            year,
            5,
        ) + days_in_month(year, 6) + days_in_month(year, 7) + days_in_month(year, 8)
            + days_in_month(year, 9) + days_in_month(year, 10) + days_in_month(year, 11)
            + days_in_month(year, 12) == 337,
        days_in_month(year, 4) == 30 && days_in_month(year, 6) == 30 && days_in_month(year, 9) == 30
            && days_in_month(year, 11) == 30,
{
    assert((year + 400) % 4 == year % 4);
    assert((year + 400) % 100 == year % 100);
    assert((year + 400) % 400 == year % 400);
}

/// A release date is shown by its year, month and day, in digits with dashes between them; one that is not
/// known by a dash.
pub proof fn law_release_dates(date: Date, r: Option<String>, unknown: Option<String>)
    requires
        call_ensures(release_date_label, (Some(date),), r),
        call_ensures(release_date_label, (None::<Date>,), unknown),
        0 <= date.year <= 9999,
    ensures
        unknown is Some && unknown->0@ == "-"@,
        r is Some <==> is_calendar_day(date.year as int, date.month as int, date.day as int),
        r is Some ==> {
            let two = |n: int| crate::utils::two_places(n);
            r->0@ == two(date.year as int / 100) + two(date.year as int % 100) + seq!['-'] + two(
                date.month as int,
            ) + seq!['-'] + two(date.day as int)
        },
{
    crate::utils::lemma_two_places(date.year as int / 100);
    crate::utils::lemma_two_places(date.year as int % 100);
    if is_calendar_day(date.year as int, date.month as int, date.day as int) {
        crate::utils::lemma_two_places(date.month as int);
        crate::utils::lemma_two_places(date.day as int);
        let two = |n: int| crate::utils::two_places(n);
        assert(r->0@ =~= two(date.year as int / 100) + two(date.year as int % 100) + seq!['-']
            + two(date.month as int) + seq!['-'] + two(date.day as int));
    }
}

}
