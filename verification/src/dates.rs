//! Calendar dates as day numbers, with the `chrono` conversions between text
//! and days. A `CalendarDate` holds `NaiveDate::num_days_from_ce`, so date
//! order is number order and adding days is adding numbers.

use chrono::Datelike;
use vstd::prelude::*;

verus! {

/// A calendar day, as the number of days since the start of the common era
/// (0001-01-01 is day 1).
#[derive(Clone, Copy, Debug, PartialEq, Eq, Structural)]
pub struct CalendarDate {
    pub day: i32,
}

/// The day named by `yyyy-MM-dd` text, if `chrono` reads it as a valid date
/// (`NaiveDate::parse_from_str(s, "%Y-%m-%d")`, as a day number).
pub uninterp spec fn ymd_day(s: Seq<char>) -> Option<int>;

/// The day named by compact `yyyyMMdd` text (`NaiveDate::parse_from_str(s, "%Y%m%d")`).
pub uninterp spec fn compact_day(s: Seq<char>) -> Option<int>;

/// The `yyyy-MM-dd` text of a day, if `chrono` can represent it
/// (`NaiveDate::from_num_days_from_ce_opt(d)` formatted with `%Y-%m-%d`).
pub uninterp spec fn day_text(d: int) -> Option<Seq<char>>;

/// The calendar year of a day, if `chrono` can represent the day.
pub uninterp spec fn day_year(d: int) -> Option<int>;

/// The day twelve months before `d` (`NaiveDate::checked_sub_months(Months::new(12))`).
pub uninterp spec fn twelve_months_before(d: int) -> Option<int>;

/// RFC 3339 timestamp text converted to UTC and printed with milliseconds and a
/// `Z` suffix (`DateTime::parse_from_rfc3339`, then `to_rfc3339_opts(Millis, true)` in UTC).
pub uninterp spec fn rfc3339_utc_millis(s: Seq<char>) -> Option<Seq<char>>;

/// Midnight UTC of a `yyyy-MM-dd` date printed with milliseconds and a `Z`
/// suffix (`NaiveDate::parse_from_str`, `and_hms_milli_opt(0, 0, 0, 0)`, `to_rfc3339_opts`).
pub uninterp spec fn ymd_utc_midnight_millis(s: Seq<char>) -> Option<Seq<char>>;

/// The day before `d`, if `chrono` can represent it (`NaiveDate::pred_opt`).
pub uninterp spec fn day_before(d: int) -> Option<int>;

/// `NaiveDate::pred_opt`; named `day_before`. The previous calendar day has the
/// previous day number.
#[verifier::external_body]
pub(crate) fn pred_day(d: CalendarDate) -> (r: Option<CalendarDate>)
    ensures
        r matches Some(e) ==> day_before(d.day as int) == Some(e.day as int) && e.day == d.day - 1,
        r is None ==> day_before(d.day as int) is None,
{
    chrono::NaiveDate::from_num_days_from_ce_opt(d.day)
        .and_then(|x| x.pred_opt())
        .map(|x| CalendarDate { day: x.num_days_from_ce() })
}

/// `NaiveDate::parse_from_str(s, "%Y-%m-%d")`, as a day number; named `ymd_day`.
#[verifier::external_body]
pub(crate) fn parse_ymd(s: &str) -> (r: Option<CalendarDate>)
    ensures
        r matches Some(d) ==> ymd_day(s@) == Some(d.day as int),
        r is None ==> ymd_day(s@) is None,
{
    chrono::NaiveDate::parse_from_str(s, "%Y-%m-%d").ok().map(|d| CalendarDate { day: d.num_days_from_ce() })
}

/// `NaiveDate::parse_from_str(s, "%Y%m%d")`, as a day number; named `compact_day`.
#[verifier::external_body]
pub(crate) fn parse_compact(s: &str) -> (r: Option<CalendarDate>)
    ensures
        r matches Some(d) ==> compact_day(s@) == Some(d.day as int),
        r is None ==> compact_day(s@) is None,
{
    chrono::NaiveDate::parse_from_str(s, "%Y%m%d").ok().map(|d| CalendarDate { day: d.num_days_from_ce() })
}

/// `NaiveDate::from_num_days_from_ce_opt` formatted as `%Y-%m-%d`; named `day_text`.
/// The text reads back as the same day (`parse_from_str` with `%Y-%m-%d`,
/// named `ymd_day`): `%Y` writes four digits, or a sign and the digits outside
/// the years 0 to 9999, and parsing `%Y` takes a sign and any number of digits.
#[verifier::external_body]
pub(crate) fn format_ymd(d: CalendarDate) -> (r: Option<String>)
    ensures
        r matches Some(t) ==> day_text(d.day as int) == Some(t@),
        r matches Some(t) ==> ymd_day(t@) == Some(d.day as int),
        r is None ==> day_text(d.day as int) is None,
{
    chrono::NaiveDate::from_num_days_from_ce_opt(d.day).map(|x| x.format("%Y-%m-%d").to_string())
}

/// `Datelike::year` of the day; named `day_year`.
#[verifier::external_body]
pub(crate) fn year_of(d: CalendarDate) -> (r: Option<i32>)
    ensures
        r matches Some(y) ==> day_year(d.day as int) == Some(y as int),
        r is None ==> day_year(d.day as int) is None,
{
    chrono::NaiveDate::from_num_days_from_ce_opt(d.day).map(|x| x.year())
}

/// `NaiveDate::checked_sub_months(Months::new(12))`; named `twelve_months_before`.
#[verifier::external_body]
pub(crate) fn sub_twelve_months(d: CalendarDate) -> (r: Option<CalendarDate>)
    ensures
        r matches Some(e) ==> twelve_months_before(d.day as int) == Some(e.day as int),
        r is None ==> twelve_months_before(d.day as int) is None,
{
    chrono::NaiveDate::from_num_days_from_ce_opt(d.day)
        .and_then(|x| x.checked_sub_months(chrono::Months::new(12)))
        .map(|x| CalendarDate { day: x.num_days_from_ce() })
}

/// `DateTime::parse_from_rfc3339` re-printed in UTC with milliseconds; named `rfc3339_utc_millis`.
#[verifier::external_body]
pub(crate) fn rfc3339_to_utc_millis(s: &str) -> (r: Option<String>)
    ensures
        r matches Some(t) ==> rfc3339_utc_millis(s@) == Some(t@),
        r is None ==> rfc3339_utc_millis(s@) is None,
{
    chrono::DateTime::parse_from_rfc3339(s)
        .ok()
        .map(|t| t.with_timezone(&chrono::Utc).to_rfc3339_opts(chrono::SecondsFormat::Millis, true))
}

/// A `yyyy-MM-dd` date as midnight UTC with milliseconds; named `ymd_utc_midnight_millis`.
#[verifier::external_body]
pub(crate) fn ymd_to_utc_midnight_millis(s: &str) -> (r: Option<String>)
    ensures
        r matches Some(t) ==> ymd_utc_midnight_millis(s@) == Some(t@),
        r is None ==> ymd_utc_midnight_millis(s@) is None,
{
    chrono::NaiveDate::parse_from_str(s, "%Y-%m-%d")
        .ok()
        .and_then(|d| d.and_hms_milli_opt(0, 0, 0, 0))
        .map(|t| chrono::DateTime::<chrono::Utc>::from_naive_utc_and_offset(t, chrono::Utc)
            .to_rfc3339_opts(chrono::SecondsFormat::Millis, true))
}

/// The day a `yyyy-MM-dd` text names, if it names one (see `ymd_day`).
pub fn day_from_text(s: &str) -> (r: Option<CalendarDate>)
    ensures
        match ymd_day(s@) {
            Some(d) => r matches Some(x) && x.day == d,
            None => r is None,
        },
{
    parse_ymd(s)
}

} // verus!
