//! iCalendar text: the payload of a planner assignment, and the VEVENTs read
//! out of calendar data.

use super::slots::{dtend_line, dtstart_line, format_hhmm, hhmm, order_line, without_dashes};
use super::types::RawVEvent;
use crate::dates::{day_text, format_ymd, CalendarDate};
use crate::text::{decimal, opt_view, parse_u64, parse_u64_spec, push_char, push_str, text_eq, u64_to_text};
use chrono::{Datelike, Timelike};
use icalendar::Component;
use vstd::prelude::*;
use vstd::string::StrSliceExecFns;

verus! {

/// `icalendar::DatePerhapsTime`.
#[verifier::external_type_specification]
#[verifier::external_body]
pub struct ExDatePerhapsTime(icalendar::DatePerhapsTime);

/// The hour and minute of a DATE-TIME.
#[derive(Clone, Copy, Debug, PartialEq, Eq, Structural)]
pub struct IcalClock {
    pub hour: u32,
    pub minute: u32,
}

/// A DTSTART or DTEND value: its day, and for a DATE-TIME its hour and minute.
#[derive(Clone, Copy, Debug, PartialEq, Eq, Structural)]
pub struct IcalTime {
    pub day: CalendarDate,
    /// Hour and minute of a DATE-TIME; none for a DATE.
    pub clock: Option<IcalClock>,
}

/// A VEVENT as plain values: its properties by name (value text), and its
/// start and end as the `icalendar` crate reads them.
pub struct IcalEvent {
    pub properties: Vec<(String, String)>,
    pub start: Option<IcalTime>,
    pub end: Option<IcalTime>,
}

/// The abstract content of a VEVENT.
pub struct IcalEventView {
    pub properties: Seq<(Seq<char>, Seq<char>)>,
    pub start: Option<IcalTime>,
    pub end: Option<IcalTime>,
}

impl View for IcalEvent {
    type V = IcalEventView;

    open spec fn view(&self) -> IcalEventView {
        IcalEventView {
            properties: self.properties@.map_values(|p: (String, String)| (p.0@, p.1@)),
            start: self.start,
            end: self.end,
        }
    }
}

/// The components of iCalendar text as the `icalendar` crate parses it
/// (`str::parse::<Calendar>`): each VEVENT as its properties, start and end,
/// every other component as none; or the parser's error (its `Debug` text).
pub uninterp spec fn ical_components(text: Seq<char>) -> Result<Seq<Option<IcalEventView>>, Seq<char>>;

/// The day and clock of a DTSTART or DTEND value: a DATE has no clock; a
/// DATE-TIME keeps its own date and time, a UTC one its UTC date and time.
/// Only the range of the clock is stated (hour below 24, minute below 60, as
/// `chrono`'s `Timelike` gives them); which day and time a value holds is what
/// `read_ical_components` names.
#[verifier::external_body]
fn ical_time_of(t: &icalendar::DatePerhapsTime) -> (r: IcalTime)
    ensures
        r.clock matches Some(c) ==> c.hour < 24 && c.minute < 60,
{
    let (d, clock) = match t {
        icalendar::DatePerhapsTime::Date(d) => (*d, None),
        icalendar::DatePerhapsTime::DateTime(icalendar::CalendarDateTime::Floating(dt)) => (dt.date(), Some(dt.time())),
        icalendar::DatePerhapsTime::DateTime(icalendar::CalendarDateTime::Utc(dt)) => (dt.date_naive(), Some(dt.time())),
        icalendar::DatePerhapsTime::DateTime(icalendar::CalendarDateTime::WithTimezone { date_time, .. }) => (date_time.date(), Some(date_time.time())),
    };
    IcalTime { day: CalendarDate { day: d.num_days_from_ce() }, clock: clock.map(|c| IcalClock { hour: c.hour(), minute: c.minute() }) }
}

/// `str::parse::<icalendar::Calendar>`, each component converted to plain
/// values; named `ical_components`. Hours are below 24 and minutes below 60,
/// as `chrono` gives them.
#[verifier::external_body]
fn read_ical_components(text: &str) -> (r: Result<Vec<Option<IcalEvent>>, String>)
    ensures
        match r {
            Ok(cs) => ical_components(text@) == Ok::<Seq<Option<IcalEventView>>, Seq<char>>(
                cs@.map_values(|c: Option<IcalEvent>| match c { Some(e) => Some(e@), None => None }),
            ),
            Err(e) => ical_components(text@) == Err::<Seq<Option<IcalEventView>>, Seq<char>>(e@),
        },
        r matches Ok(cs) ==> forall|i: int| 0 <= i < cs@.len() ==> (#[trigger] cs@[i] matches Some(e) ==> clock_ok(e.start) && clock_ok(e.end)),
{
    let calendar: icalendar::Calendar = text.parse().map_err(|e| format!("{e:?}"))?;
    Ok(calendar.components.iter().map(|c| c.as_event().map(|e| IcalEvent {
        properties: e.properties().iter().map(|(k, p)| (k.clone(), p.value().to_string())).collect(),
        start: e.get_start().map(|t| ical_time_of(&t)),
        end: e.get_end().map(|t| ical_time_of(&t)),
    })).collect())
}

/// The planner's message for iCalendar text that does not parse.
pub open spec fn ical_read_error(detail: Seq<char>) -> Seq<char> {
    "iCal-Daten konnten nicht gelesen werden: "@ + detail
}

/// A clock within the day: hour below 24, minute below 60.
pub open spec fn clock_ok(t: Option<IcalTime>) -> bool {
    t matches Some(t) ==> (t.clock matches Some(c) ==> c.hour < 24 && c.minute < 60)
}

/// The value of the first property called `key`.
pub open spec fn property_of(props: Seq<(Seq<char>, Seq<char>)>, key: Seq<char>) -> Option<Seq<char>>
    decreases props.len(),
{
    if props.len() == 0 {
        None
    } else if props[0].0 == key {
        Some(props[0].1)
    } else {
        property_of(props.drop_first(), key)
    }
}

fn find_property(props: &Vec<(String, String)>, key: &str) -> (r: Option<String>)
    ensures
        opt_view(r) == property_of(props@.map_values(|p: (String, String)| (p.0@, p.1@)), key@),
{
    let ghost pv = props@.map_values(|p: (String, String)| (p.0@, p.1@));
    let n = props.len();
    let mut i: usize = 0;
    assert(pv.skip(0) =~= pv);
    while i < n
        invariant
            n == props@.len(),
            pv == props@.map_values(|p: (String, String)| (p.0@, p.1@)),
            i <= n,
            property_of(pv, key@) == property_of(pv.skip(i as int), key@),
        decreases n - i,
    {
        proof {
            let tail = pv.skip(i as int);
            assert(tail[0] == pv[i as int]);
            assert(tail.drop_first() =~= pv.skip(i + 1));
        }
        if text_eq(props[i].0.as_str(), key) {
            return Some(props[i].1.clone());
        }
        i = i + 1;
    }
    assert(pv.skip(n as int) =~= Seq::<(Seq<char>, Seq<char>)>::empty());
    None
}

/// `HH:MM` of a clock.
pub open spec fn clock_text(t: IcalTime) -> Option<Seq<char>> {
    match t.clock {
        Some(c) => Some(hhmm((c.hour * 60 + c.minute) as nat)),
        None => None,
    }
}

/// An order index written as a `u32`.
pub open spec fn order_index_of(text: Option<Seq<char>>) -> Option<u32> {
    match text {
        Some(t) => match parse_u64_spec(t) {
            Some(n) => if n <= u32::MAX {
                Some(n as u32)
            } else {
                None
            },
            None => None,
        },
        None => None,
    }
}

/// The fields of a raw event read from a VEVENT.
pub struct RawEventView {
    pub uid: Seq<char>,
    pub summary: Seq<char>,
    pub description: Seq<char>,
    pub dtstart: Seq<char>,
    pub dtend: Option<CalendarDate>,
    pub start_time: Option<Seq<char>>,
    pub end_time: Option<Seq<char>>,
    pub order_index: Option<u32>,
}

/// A VEVENT as a raw event: without a readable DTSTART it is skipped; the
/// date is the start's `yyyy-MM-dd`, times are `HH:MM` of DATE-TIMEs, and the
/// end date is kept only for a DATE end (all-day events).
pub open spec fn raw_event_of(e: IcalEventView) -> Option<RawEventView> {
    match e.start {
        None => None,
        Some(start) => match day_text(start.day.day as int) {
            None => None,
            Some(date) => Some(
                RawEventView {
                    uid: match property_of(e.properties, "UID"@) { Some(v) => v, None => Seq::empty() },
                    summary: match property_of(e.properties, "SUMMARY"@) { Some(v) => v, None => Seq::empty() },
                    description: match property_of(e.properties, "DESCRIPTION"@) { Some(v) => v, None => Seq::empty() },
                    dtstart: date,
                    dtend: match e.end {
                        Some(t) => if t.clock is None { Some(t.day) } else { None },
                        None => None,
                    },
                    start_time: clock_text(start),
                    end_time: match e.end {
                        Some(t) => clock_text(t),
                        None => None,
                    },
                    order_index: order_index_of(property_of(e.properties, "X-LKR-ORDER"@)),
                },
            ),
        },
    }
}

/// The view of a raw event's fields read from iCal.
pub open spec fn raw_event_fields(r: RawVEvent) -> RawEventView {
    RawEventView {
        uid: r.uid@,
        summary: r.summary@,
        description: r.description@,
        dtstart: r.dtstart@,
        dtend: r.dtend,
        start_time: opt_view(r.start_time),
        end_time: opt_view(r.end_time),
        order_index: r.order_index,
    }
}

/// The raw events of a parsed calendar, in order.
pub open spec fn raw_events_of(cs: Seq<Option<IcalEventView>>) -> Seq<RawEventView>
    decreases cs.len(),
{
    if cs.len() == 0 {
        Seq::empty()
    } else {
        let rest = raw_events_of(cs.drop_last());
        match cs.last() {
            Some(e) => match raw_event_of(e) {
                Some(r) => rest.push(r),
                None => rest,
            },
            None => rest,
        }
    }
}

fn clock_string(t: IcalTime) -> (r: Option<String>)
    requires
        clock_ok(Some(t)),
    ensures
        opt_view(r) == clock_text(t),
{
    match t.clock {
        Some(c) => Some(format_hhmm(c.hour * 60 + c.minute)),
        None => None,
    }
}

fn text_or_empty(o: Option<String>) -> (r: String)
    ensures
        r@ == match opt_view(o) { Some(v) => v, None => Seq::empty() },
{
    match o {
        Some(v) => v,
        None => String::new(),
    }
}

fn parse_order_index(text: Option<String>) -> (r: Option<u32>)
    ensures
        r == order_index_of(opt_view(text)),
{
    match text {
        Some(t) => match parse_u64(t.as_str()) {
            Some(n) => if n <= u32::MAX as u64 {
                Some(n as u32)
            } else {
                None
            },
            None => None,
        },
        None => None,
    }
}

/// The raw event of one VEVENT (see `raw_event_of`); its href, ETag and
/// calendar data are left empty for the caller to fill in.
fn raw_event_from(e: &IcalEvent) -> (r: Option<RawVEvent>)
    requires
        clock_ok(e.start),
        clock_ok(e.end),
    ensures
        match raw_event_of(e@) {
            Some(v) => r matches Some(x) && raw_event_fields(x) == v && x.href@.len() == 0 && x.etag@.len() == 0
                && x.raw_ical@.len() == 0,
            None => r is None,
        },
{
    let start = match e.start {
        Some(s) => s,
        None => return None,
    };
    let dtstart = match format_ymd(start.day) {
        Some(d) => d,
        None => return None,
    };
    let dtend = match e.end {
        Some(t) => if t.clock.is_none() {
            Some(t.day)
        } else {
            None
        },
        None => None,
    };
    let end_time = match e.end {
        Some(t) => clock_string(t),
        None => None,
    };
    Some(
        RawVEvent {
            uid: text_or_empty(find_property(&e.properties, "UID")),
            summary: text_or_empty(find_property(&e.properties, "SUMMARY")),
            description: text_or_empty(find_property(&e.properties, "DESCRIPTION")),
            dtstart,
            dtend,
            start_time: clock_string(start),
            end_time,
            href: String::new(),
            etag: String::new(),
            raw_ical: String::new(),
            order_index: parse_order_index(find_property(&e.properties, "X-LKR-ORDER")),
        },
    )
}

/// The raw events of iCalendar text: every VEVENT with a readable DTSTART
/// (see `raw_event_of`), in order; or the parse error.
pub fn parse_ical_events(ical_text: &str) -> (r: Result<Vec<RawVEvent>, String>)
    ensures
        match ical_components(ical_text@) {
            Ok(cs) => r matches Ok(v) && v@.map_values(|x: RawVEvent| raw_event_fields(x)) == raw_events_of(cs) && forall|
                i: int,
            | 0 <= i < v@.len() ==> (#[trigger] v@[i]).href@.len() == 0 && v@[i].etag@.len() == 0 && v@[i].raw_ical@.len() == 0,
            Err(e) => r matches Err(m) && m@ == ical_read_error(e),
        },
{
    let components = match read_ical_components(ical_text) {
        Ok(cs) => cs,
        Err(e) => {
            let mut m = "iCal-Daten konnten nicht gelesen werden: ".to_owned();
            push_str(&mut m, e.as_str());
            return Err(m);
        },
    };
    let ghost cv = components@.map_values(|c: Option<IcalEvent>| match c { Some(e) => Some(e@), None => None });
    let n = components.len();
    let mut events: Vec<RawVEvent> = Vec::new();
    let mut i: usize = 0;
    while i < n
        invariant
            n == components@.len(),
            cv == components@.map_values(|c: Option<IcalEvent>| match c { Some(e) => Some(e@), None => None }),
            forall|k: int| 0 <= k < components@.len() ==> (#[trigger] components@[k] matches Some(e) ==> clock_ok(e.start) && clock_ok(e.end)),
            i <= n,
            events@.map_values(|x: RawVEvent| raw_event_fields(x)) == raw_events_of(cv.take(i as int)),
            forall|k: int| 0 <= k < events@.len() ==> (#[trigger] events@[k]).href@.len() == 0 && events@[k].etag@.len() == 0
                && events@[k].raw_ical@.len() == 0,
        decreases n - i,
    {
        proof {
            assert(cv.take(i + 1).drop_last() =~= cv.take(i as int));
            assert(cv.take(i + 1).last() == cv[i as int]);
        }
        if let Some(e) = &components[i] {
            assert(components@[i as int] matches Some(x) && clock_ok(x.start) && clock_ok(x.end));
            if let Some(ev) = raw_event_from(e) {
                let ghost before = events@;
                events.push(ev);
                assert(events@.map_values(|x: RawVEvent| raw_event_fields(x)) =~= before.map_values(|x: RawVEvent| raw_event_fields(x)).push(raw_event_fields(ev)));
            }
        }
        i = i + 1;
    }
    assert(cv.take(n as int) =~= cv);
    Ok(events)
}

/// Escapes text for an iCalendar TEXT value: backslash, semicolon and comma get
/// a backslash, and each line break (`\r\n`, `\n` or `\r`) becomes `\n`.
/// Lines are not folded; servers accept long lines and summaries are short.
pub open spec fn escaped_ical(s: Seq<char>) -> Seq<char>
    decreases s.len(),
{
    if s.len() == 0 {
        Seq::empty()
    } else if s.len() >= 2 && s[0] == '\r' && s[1] == '\n' {
        seq!['\\', 'n'] + escaped_ical(s.skip(2))
    } else {
        let c = s[0];
        let head = if c == '\\' {
            seq!['\\', '\\']
        } else if c == ';' {
            seq!['\\', ';']
        } else if c == ',' {
            seq!['\\', ',']
        } else if c == '\n' || c == '\r' {
            seq!['\\', 'n']
        } else {
            seq![c]
        };
        head + escaped_ical(s.skip(1))
    }
}

/// Escapes a TEXT value (see `escaped_ical`).
pub fn escape_ical_text(value: &str) -> (r: String)
    ensures
        r@ == escaped_ical(value@),
{
    let n = value.unicode_len();
    let mut r = String::new();
    let mut i: usize = 0;
    assert(value@.skip(0) =~= value@);
    while i < n
        invariant
            n == value@.len(),
            i <= n,
            r@ + escaped_ical(value@.skip(i as int)) == escaped_ical(value@),
        decreases n - i,
    {
        let ghost rest = value@.skip(i as int);
        let c = value.get_char(i);
        assert(rest[0] == c);
        if c == '\r' && i + 1 < n && value.get_char(i + 1) == '\n' {
            assert(rest[1] == '\n');
            assert(rest.skip(2) =~= value@.skip(i + 2));
            push_char(&mut r, '\\');
            push_char(&mut r, 'n');
            assert(r@ + escaped_ical(value@.skip(i + 2)) =~= escaped_ical(value@)) by {
                assert(escaped_ical(rest) == seq!['\\', 'n'] + escaped_ical(rest.skip(2)));
            }
            i = i + 2;
        } else {
            assert(rest.skip(1) =~= value@.skip(i + 1));
            let ghost before = r@;
            if c == '\\' {
                push_char(&mut r, '\\');
                push_char(&mut r, '\\');
            } else if c == ';' {
                push_char(&mut r, '\\');
                push_char(&mut r, ';');
            } else if c == ',' {
                push_char(&mut r, '\\');
                push_char(&mut r, ',');
            } else if c == '\n' || c == '\r' {
                push_char(&mut r, '\\');
                push_char(&mut r, 'n');
            } else {
                push_char(&mut r, c);
            }
            assert(r@ + escaped_ical(value@.skip(i + 1)) =~= escaped_ical(value@)) by {
                assert(escaped_ical(rest) == (r@.skip(before.len() as int)) + escaped_ical(rest.skip(1)));
                assert(before + r@.skip(before.len() as int) =~= r@);
            }
            i = i + 1;
        }
    }
    assert(value@.skip(n as int) =~= Seq::<char>::empty());
    assert(r@ + Seq::<char>::empty() =~= r@);
    r
}

/// The order property line of a payload, if the payload carries one.
pub open spec fn order_part(order_index: Option<nat>) -> Seq<char> {
    match order_index {
        Some(o) => order_line(o) + "\r\n"@,
        None => Seq::empty(),
    }
}

/// The calendar of a planner assignment: one VEVENT with the UID, the time
/// stamp, floating local start and end on the date, the escaped summary, the
/// escaped `daylite:` reference as description and, where there is one, the
/// order property.
pub open spec fn ical_payload(
    uid: Seq<char>,
    dtstamp: Seq<char>,
    date: Seq<char>,
    summary: Seq<char>,
    project_ref: Seq<char>,
    start: nat,
    end: nat,
    order_index: Option<nat>,
) -> Seq<char> {
    "BEGIN:VCALENDAR\r\nVERSION:2.0\r\nPRODID:-//lkr-planner//EN\r\nBEGIN:VEVENT\r\nUID:"@ + uid + "\r\nDTSTAMP:"@ + dtstamp
        + "\r\n"@ + dtstart_line(date, start) + "\r\n"@ + dtend_line(date, end) + "\r\nSUMMARY:"@ + escaped_ical(summary)
        + "\r\nDESCRIPTION:"@ + escaped_ical("daylite:"@ + project_ref) + "\r\n"@ + order_part(order_index)
        + "END:VEVENT\r\nEND:VCALENDAR\r\n"@
}

/// The order index of a payload as a mathematical value.
pub open spec fn order_nat(order_index: Option<u32>) -> Option<nat> {
    match order_index {
        Some(o) => Some(o as nat),
        None => None,
    }
}

/// The payload of an assignment with the given time stamp (see `ical_payload`).
pub fn build_ical_payload_at(
    uid: &str,
    dtstamp: &str,
    date: &str,
    summary: &str,
    project_ref: &str,
    slot_start: u32,
    slot_end: u32,
    order_index: Option<u32>,
) -> (r: String)
    requires
        slot_start < 6000,
        slot_end < 6000,
    ensures
        r@ == ical_payload(uid@, dtstamp@, date@, summary@, project_ref@, slot_start as nat, slot_end as nat, order_nat(order_index)),
{
    let mut p = "BEGIN:VCALENDAR\r\nVERSION:2.0\r\nPRODID:-//lkr-planner//EN\r\nBEGIN:VEVENT\r\nUID:".to_owned();
    push_str(&mut p, uid);
    push_str(&mut p, "\r\nDTSTAMP:");
    push_str(&mut p, dtstamp);
    push_str(&mut p, "\r\n");
    let start_line = super::slots::build_time_line_text("DTSTART:", date, slot_start);
    push_str(&mut p, start_line.as_str());
    push_str(&mut p, "\r\n");
    let end_line = super::slots::build_time_line_text("DTEND:", date, slot_end);
    push_str(&mut p, end_line.as_str());
    push_str(&mut p, "\r\nSUMMARY:");
    let s = escape_ical_text(summary);
    push_str(&mut p, s.as_str());
    push_str(&mut p, "\r\nDESCRIPTION:");
    let mut reference = "daylite:".to_owned();
    push_str(&mut reference, project_ref);
    let d = escape_ical_text(reference.as_str());
    push_str(&mut p, d.as_str());
    push_str(&mut p, "\r\n");
    match order_index {
        Some(o) => {
            let line = super::slots::build_order_line_text(o);
            push_str(&mut p, line.as_str());
            push_str(&mut p, "\r\n");
        },
        None => {},
    }
    push_str(&mut p, "END:VEVENT\r\nEND:VCALENDAR\r\n");
    assert(p@ =~= ical_payload(uid@, dtstamp@, date@, summary@, project_ref@, slot_start as nat, slot_end as nat, order_nat(order_index)));
    p
}

/// An ASCII decimal digit.
pub open spec fn is_digit_char(c: char) -> bool {
    '0' <= c && c <= '9'
}

/// The shape of a UTC time stamp `<year>MMDDTHHMMSSZ`: whatever the year is
/// written as, it is followed by month and day digits, `T`, six digits of the
/// time and `Z`.
pub open spec fn is_utc_stamp(s: Seq<char>) -> bool {
    &&& s.len() >= 16
    &&& s[s.len() - 1] == 'Z'
    &&& s[s.len() - 8] == 'T'
    &&& forall|i: int| s.len() - 12 <= i < s.len() - 8 ==> is_digit_char(#[trigger] s[i])
    &&& forall|i: int| s.len() - 7 <= i < s.len() - 1 ==> is_digit_char(#[trigger] s[i])
}

/// The current UTC time as an iCalendar time stamp: the system clock's time
/// since the Unix epoch (`SystemTime::duration_since(UNIX_EPOCH)`), made a
/// `chrono` UTC time (`DateTime::from_timestamp`) and formatted
/// `%Y%m%dT%H%M%SZ`. None when the clock reads before the epoch or beyond
/// `chrono`'s range. Only the stamp's shape is stated (`is_utc_stamp`: `%Y`
/// writes at least four characters, a sign first beyond the year 9999, and
/// every other field is two zero-padded digits); which time it holds rests on
/// the clock.
#[verifier::external_body]
fn utc_stamp_now() -> (r: Option<String>)
    ensures
        r matches Some(s) ==> is_utc_stamp(s@),
{
    let elapsed = std::time::SystemTime::now().duration_since(std::time::UNIX_EPOCH).ok()?;
    let seconds = i64::try_from(elapsed.as_secs()).ok()?;
    let at = chrono::DateTime::from_timestamp(seconds, elapsed.subsec_nanos())?;
    Some(at.format("%Y%m%dT%H%M%SZ").to_string())
}

/// The payload of an assignment in the fixed 08:00-16:00 window, without an
/// order property, stamped with the current time (see `ical_payload`); none
/// when the clock gives no time stamp. Which stamp it carries rests on the
/// clock.
pub fn build_ical_payload(uid: &str, date: &str, summary: &str, project_ref: &str) -> (r: Option<String>)
    ensures
        r matches Some(p) ==> exists|stamp: Seq<char>|
            is_utc_stamp(stamp) && p@ == #[trigger] ical_payload(uid@, stamp, date@, summary@, project_ref@, 480, 960, None),
{
    let stamp = match utc_stamp_now() {
        Some(s) => s,
        None => return None,
    };
    let r = build_ical_payload_at(uid, stamp.as_str(), date, summary, project_ref, 480, 960, None);
    assert(r@ == ical_payload(uid@, stamp@, date@, summary@, project_ref@, 480, 960, None));
    Some(r)
}

/// The payload of an assignment in its slot and at its place in the day's
/// order, stamped with the current time (see `ical_payload`); none when the
/// clock gives no time stamp.
pub fn build_slotted_ical_payload(
    uid: &str,
    date: &str,
    summary: &str,
    project_ref: &str,
    slot_start: u32,
    slot_end: u32,
    order_index: u32,
) -> (r: Option<String>)
    requires
        slot_start < 6000,
        slot_end < 6000,
    ensures
        r matches Some(p) ==> exists|stamp: Seq<char>|
            is_utc_stamp(stamp) && p@ == #[trigger] ical_payload(uid@, stamp, date@, summary@, project_ref@, slot_start as nat, slot_end as nat, Some(order_index as nat)),
{
    let stamp = match utc_stamp_now() {
        Some(s) => s,
        None => return None,
    };
    let r = build_ical_payload_at(uid, stamp.as_str(), date, summary, project_ref, slot_start, slot_end, Some(order_index));
    assert(r@ == ical_payload(uid@, stamp@, date@, summary@, project_ref@, slot_start as nat, slot_end as nat, Some(order_index as nat)));
    Some(r)
}

/// The `HH:MM` text of an hour and minute.
pub open spec fn clock_hhmm(c: IcalClock) -> Seq<char> {
    hhmm((c.hour * 60 + c.minute) as nat)
}

/// A parsed event keeps the times of its own DTSTART and DTEND: its start
/// time is the start's clock, its end time the end's clock (none for a DATE or
/// a missing end), and only an all-day end keeps its day as the end date.
pub proof fn law_event_times_come_from_their_own_properties(e: IcalEventView)
    requires
        e.start is Some,
        day_text(e.start->0.day.day as int) is Some,
    ensures
        raw_event_of(e) is Some,
        raw_event_of(e)->0.start_time == (match e.start->0.clock {
            Some(c) => Some(clock_hhmm(c)),
            None => None,
        }),
        raw_event_of(e)->0.end_time == (match e.end {
            Some(t) => match t.clock {
                Some(c) => Some(clock_hhmm(c)),
                None => None,
            },
            None => None,
        }),
        raw_event_of(e)->0.dtend == (match e.end {
            Some(t) => if t.clock is None { Some(t.day) } else { None },
            None => None,
        }),
        raw_event_of(e)->0.dtstart == day_text(e.start->0.day.day as int)->0,
{
}

} // verus!

