//! Absence events of an employee's absence calendar, expanded to the days of a week.

use super::types::{CalendarCellEvent, CalendarEventKind, CellView, RawVEvent};
use crate::calendar::classify::clone_opt;
use crate::dates::{day_text, format_ymd, parse_ymd, ymd_day, CalendarDate};
use crate::text::{opt_view, push_char, push_str};
use vstd::prelude::*;
use vstd::string::StrSliceExecFns;

verus! {

/// The optional resource path of a raw event: none when it is empty.
pub open spec fn href_view(href: Seq<char>) -> Option<Seq<char>> {
    if href.len() == 0 { None } else { Some(href) }
}

/// The absence cell of an all-day event for one day whose text is `day`.
pub open spec fn absence_day_cell(raw: RawVEvent, day: Seq<char>) -> CellView {
    CellView {
        uid: raw.uid@ + seq!['-'] + day,
        kind: CalendarEventKind::Absence,
        title: raw.summary@,
        project_status: None,
        project_category: None,
        category_color: None,
        project_ref: None,
        date: day,
        start_time: None,
        end_time: None,
        href: href_view(raw.href@),
        order_index: None,
    }
}

/// The cells of the days `from..to` (those days `chrono` can print).
pub open spec fn absence_day_cells(raw: RawVEvent, from: int, to: int) -> Seq<CellView>
    decreases to - from,
{
    if to <= from {
        Seq::empty()
    } else {
        absence_day_cells(raw, from, to - 1) + match day_text(to - 1) {
            Some(t) => seq![absence_day_cell(raw, t)],
            None => Seq::empty(),
        }
    }
}

/// The cells of one absence event in the week starting on day `week_start`:
/// nothing when its start date cannot be read; for an all-day event with an
/// end date, one cell per day of `[start, end)` that falls in the week; for
/// any other event a single cell carrying its own date and times.
pub open spec fn absence_cells(raw: RawVEvent, week_start: int) -> Seq<CellView> {
    match ymd_day(raw.dtstart@) {
        None => Seq::empty(),
        Some(start) => match raw.dtend {
            Some(end) => absence_day_cells(
                raw,
                if start > week_start { start } else { week_start },
                if end.day < week_start + 7 { end.day as int } else { week_start + 7 },
            ),
            None => seq![
                CellView {
                    uid: raw.uid@,
                    kind: CalendarEventKind::Absence,
                    title: raw.summary@,
                    project_status: None,
                    project_category: None,
                    category_color: None,
                    project_ref: None,
                    date: raw.dtstart@,
                    start_time: opt_view(raw.start_time),
                    end_time: opt_view(raw.end_time),
                    href: href_view(raw.href@),
                    order_index: None,
                },
            ],
        },
    }
}

/// The cells of all absence events, in order.
pub open spec fn all_absence_cells(raws: Seq<RawVEvent>, week_start: int) -> Seq<CellView>
    decreases raws.len(),
{
    if raws.len() == 0 {
        Seq::empty()
    } else {
        all_absence_cells(raws.drop_last(), week_start) + absence_cells(raws.last(), week_start)
    }
}

/// The views of a list of cells.
pub open spec fn cell_views(events: Seq<CalendarCellEvent>) -> Seq<CellView> {
    events.map_values(|e: CalendarCellEvent| e@)
}

fn href_of(href: &String) -> (r: Option<String>)
    ensures
        opt_view(r) == href_view(href@),
{
    if href.as_str().unicode_len() == 0 {
        None
    } else {
        Some(href.clone())
    }
}

fn push_absence_cells(out: &mut Vec<CalendarCellEvent>, raw: &RawVEvent, week_start: CalendarDate)
    ensures
        cell_views(final(out)@) == cell_views(old(out)@) + absence_cells(*raw, week_start.day as int),
        forall|i: int, j: int|
            old(out)@.len() <= i < j < final(out)@.len() ==> (#[trigger] final(out)@[i]).uid@ != (#[trigger] final(out)@[j]).uid@,
{
    let ghost before = cell_views(out@);
    let start = match parse_ymd(raw.dtstart.as_str()) {
        Some(d) => d,
        None => {
            assert(cell_views(out@) =~= before + Seq::<CellView>::empty());
            return;
        },
    };
    match raw.dtend {
        Some(end) => {
            let week_end: i64 = week_start.day as i64 + 7;
            let from: i64 = if start.day > week_start.day { start.day as i64 } else { week_start.day as i64 };
            let to: i64 = if (end.day as i64) < week_end { end.day as i64 } else { week_end };
            let mut d: i64 = from;
            if to <= from {
                assert(cell_views(out@) =~= before + absence_cells(*raw, week_start.day as int));
                return;
            }
            while d < to
                invariant
                    from <= d <= to,
                    to <= end.day,
                    from >= i32::MIN,
                    before.len() <= out@.len(),
                    cell_views(out@) == before + absence_day_cells(*raw, from as int, d as int),
                    forall|k: int|
                        before.len() <= k < out@.len() ==> (ymd_day((#[trigger] out@[k]).date@) matches Some(x) && x < d)
                            && out@[k].uid@ == raw.uid@ + seq!['-'] + out@[k].date@,
                    forall|k: int, l: int|
                        before.len() <= k < l < out@.len() ==> ymd_day((#[trigger] out@[k]).date@)->0 < ymd_day(
                            (#[trigger] out@[l]).date@,
                        )->0,
                decreases to - d,
            {
                let day = CalendarDate { day: d as i32 };
                let ghost prev = cell_views(out@);
                match format_ymd(day) {
                    Some(text) => {
                        let mut uid = raw.uid.clone();
                        push_char(&mut uid, '-');
                        push_str(&mut uid, text.as_str());
                        assert(uid@ =~= raw.uid@ + seq!['-'] + text@);
                        let cell = CalendarCellEvent {
                            uid,
                            kind: CalendarEventKind::Absence,
                            title: raw.summary.clone(),
                            project_status: None,
                            project_category: None,
                            category_color: None,
                            project_ref: None,
                            date: text,
                            start_time: None,
                            end_time: None,
                            href: href_of(&raw.href),
                            order_index: None,
                        };
                        let ghost outs = out@;
                        out.push(cell);
                        proof {
                            assert(cell_views(out@) =~= prev.push(cell@));
                            assert(cell@ == absence_day_cell(*raw, day_text(d as int)->0));
                            assert(out@[out@.len() - 1] == cell);
                            assert forall|k: int| before.len() <= k < out@.len() - 1 implies out@[k] == outs[k] by {}
                        }
                    },
                    None => {},
                }
                d = d + 1;
                assert(cell_views(out@) =~= before + absence_day_cells(*raw, from as int, d as int));
            }
            proof {
                let p = raw.uid@ + seq!['-'];
                assert forall|i: int, j: int| before.len() <= i < j < out@.len() implies (#[trigger] out@[i]).uid@
                    != (#[trigger] out@[j]).uid@ by {
                    if out@[i].uid@ == out@[j].uid@ {
                        assert(out@[i].date@ =~= out@[i].uid@.subrange(p.len() as int, out@[i].uid@.len() as int));
                        assert(out@[j].date@ =~= out@[j].uid@.subrange(p.len() as int, out@[j].uid@.len() as int));
                        assert(ymd_day(out@[i].date@)->0 < ymd_day(out@[j].date@)->0);
                    }
                }
            }
        },
        None => {
            let cell = CalendarCellEvent {
                uid: raw.uid.clone(),
                kind: CalendarEventKind::Absence,
                title: raw.summary.clone(),
                project_status: None,
                project_category: None,
                category_color: None,
                project_ref: None,
                date: raw.dtstart.clone(),
                start_time: clone_opt(&raw.start_time),
                end_time: clone_opt(&raw.end_time),
                href: href_of(&raw.href),
                order_index: None,
            };
            out.push(cell);
            assert(cell_views(out@) =~= before + absence_cells(*raw, week_start.day as int));
        },
    }
}

/// Maps the events of an absence calendar to absence cells of the week that
/// starts on `week_start`.
pub fn map_absence_raw_events_for_week(raw_events: Vec<RawVEvent>, week_start: CalendarDate) -> (r: Vec<
    CalendarCellEvent,
>)
    ensures
        cell_views(r@) == all_absence_cells(raw_events@, week_start.day as int),
{
    let mut out: Vec<CalendarCellEvent> = Vec::new();
    let mut i: usize = 0;
    while i < raw_events.len()
        invariant
            i <= raw_events@.len(),
            cell_views(out@) == all_absence_cells(raw_events@.take(i as int), week_start.day as int),
        decreases raw_events.len() - i,
    {
        push_absence_cells(&mut out, &raw_events[i], week_start);
        proof {
            assert(raw_events@.take(i + 1).drop_last() =~= raw_events@.take(i as int));
        }
        i = i + 1;
    }
    assert(raw_events@.take(raw_events@.len() as int) =~= raw_events@);
    out
}

proof fn lemma_absence_day_cells(raw: RawVEvent, from: int, to: int)
    ensures
        forall|k: int| 0 <= k < absence_day_cells(raw, from, to).len() ==> {
            let c = #[trigger] absence_day_cells(raw, from, to)[k];
            c.uid == raw.uid@ + seq!['-'] + c.date && c.kind == CalendarEventKind::Absence && c.title == raw.summary@
        },
        forall|d: int|
            from <= d < to && #[trigger] day_text(d) is Some ==> exists|k: int|
                0 <= k < absence_day_cells(raw, from, to).len() && absence_day_cells(raw, from, to)[k].date == day_text(d)->0,
    decreases to - from,
{
    if to > from {
        lemma_absence_day_cells(raw, from, to - 1);
        let prev = absence_day_cells(raw, from, to - 1);
        let all = absence_day_cells(raw, from, to);
        assert forall|k: int| 0 <= k < all.len() implies {
            let c = #[trigger] all[k];
            c.uid == raw.uid@ + seq!['-'] + c.date && c.kind == CalendarEventKind::Absence && c.title == raw.summary@
        } by {
            if k < prev.len() {
                assert(all[k] == prev[k]);
            }
        }
        assert forall|d: int| from <= d < to && #[trigger] day_text(d) is Some implies exists|k: int|
            0 <= k < all.len() && all[k].date == day_text(d)->0 by {
            if d < to - 1 {
                let k = choose|k: int| 0 <= k < prev.len() && prev[k].date == day_text(d)->0;
                assert(all[k] == prev[k]);
            } else {
                assert(all[prev.len() as int].date == day_text(d)->0);
            }
        }
    }
}

/// An all-day absence marks each of its days in the week with a cell of its
/// own: every cell is an absence titled like the event, named by the event's
/// UID, `-` and the cell's day, and every printable day of the absence
/// (`[start, end)`) within the week has a cell.
pub proof fn law_an_all_day_absence_marks_each_of_its_days(raw: RawVEvent, week_start: int)
    requires
        ymd_day(raw.dtstart@) is Some,
        raw.dtend is Some,
    ensures
        forall|k: int| 0 <= k < absence_cells(raw, week_start).len() ==> {
            let c = #[trigger] absence_cells(raw, week_start)[k];
            c.uid == raw.uid@ + seq!['-'] + c.date && c.kind == CalendarEventKind::Absence && c.title == raw.summary@
        },
        forall|d: int|
            ymd_day(raw.dtstart@)->0 <= d < raw.dtend->0.day && week_start <= d < week_start + 7 && #[trigger] day_text(d)
                is Some ==> exists|k: int|
                0 <= k < absence_cells(raw, week_start).len() && absence_cells(raw, week_start)[k].date == day_text(d)->0,
{
    let start = ymd_day(raw.dtstart@)->0;
    let end = raw.dtend->0.day as int;
    let from = if start > week_start { start } else { week_start };
    let to = if end < week_start + 7 { end } else { week_start + 7 };
    assert(absence_cells(raw, week_start) == absence_day_cells(raw, from, to));
    lemma_absence_day_cells(raw, from, to);
}

} // verus!

