//! The planning week: which employees are fetched, which projects must be
//! looked up, and how each employee's events are assembled for the grid.

use super::absences::{all_absence_cells, cell_views, map_absence_raw_events_for_week};
use super::classify::classify_event;
use super::order::{event_order_key, sort_events_absences_first};
use super::resolve::{resolve_event, resolved_cell};
use super::types::{CalendarCellEvent, CellView, EmployeeWeekEvents, PendingEvent, RawVEvent};
use crate::daylite::projects::ResolvedProject;
use crate::dates::CalendarDate;
use crate::local_store::{DayliteCache, EmployeeSetting};
use crate::sort::is_stable_sort_by;
use crate::text::{opt_view, text_eq};
use vstd::prelude::*;
use vstd::string::StrSliceExecFns;

verus! {

/// One employee's fetched week before its projects are resolved.
#[derive(Clone, Debug, PartialEq, Eq)]
pub struct EmployeeFetch {
    pub employee_reference: String,
    pub pending: Vec<PendingEvent>,
    pub absences: Vec<CalendarCellEvent>,
}

/// Whether an employee has a primary calendar configured (a non-blank URL).
pub open spec fn has_primary(s: EmployeeSetting) -> bool {
    opt_view(s.zep_primary_calendar) matches Some(u) && u.len() > 0
}

/// The employees with a primary calendar, in settings order.
pub open spec fn planned_employees(settings: Seq<EmployeeSetting>) -> Seq<EmployeeSetting>
    decreases settings.len(),
{
    if settings.len() == 0 {
        Seq::empty()
    } else if has_primary(settings.last()) {
        planned_employees(settings.drop_last()).push(settings.last())
    } else {
        planned_employees(settings.drop_last())
    }
}

fn primary_is_set(s: &EmployeeSetting) -> (r: bool)
    ensures
        r == has_primary(*s),
{
    match &s.zep_primary_calendar {
        Some(u) => u.as_str().unicode_len() > 0,
        None => false,
    }
}

/// When the calendars cannot be read at all, every employee with a primary
/// calendar gets an empty week carrying the message.
pub fn employees_with_error(settings: &Vec<EmployeeSetting>, message: &str) -> (r: Vec<EmployeeWeekEvents>)
    ensures
        r@.len() == planned_employees(settings@).len(),
        forall|i: int|
            0 <= i < r@.len() ==> (#[trigger] r@[i]).employee_reference@ == planned_employees(settings@)[i].daylite_contact_reference@
                && r@[i].events@.len() == 0 && opt_view(r@[i].error) == Some(message@),
{
    let n = settings.len();
    let mut r: Vec<EmployeeWeekEvents> = Vec::new();
    let mut i: usize = 0;
    while i < n
        invariant
            n == settings@.len(),
            i <= n,
            r@.len() == planned_employees(settings@.take(i as int)).len(),
            forall|k: int|
                0 <= k < r@.len() ==> (#[trigger] r@[k]).employee_reference@ == planned_employees(settings@.take(i as int))[k].daylite_contact_reference@
                    && r@[k].events@.len() == 0 && opt_view(r@[k].error) == Some(message@),
        decreases n - i,
    {
        proof {
            assert(settings@.take(i + 1).drop_last() =~= settings@.take(i as int));
            assert(settings@.take(i + 1).last() == settings@[i as int]);
        }
        if primary_is_set(&settings[i]) {
            r.push(
                EmployeeWeekEvents {
                    employee_reference: settings[i].daylite_contact_reference.clone(),
                    events: Vec::new(),
                    error: Some(message.to_owned()),
                },
            );
        }
        i = i + 1;
    }
    assert(settings@.take(n as int) =~= settings@);
    r
}

/// The first setting of an employee.
pub open spec fn first_setting_of(settings: Seq<EmployeeSetting>, reference: Seq<char>) -> Option<EmployeeSetting>
    decreases settings.len(),
{
    if settings.len() == 0 {
        None
    } else if settings[0].daylite_contact_reference@ == reference {
        Some(settings[0])
    } else {
        first_setting_of(settings.drop_first(), reference)
    }
}

/// The message of an employee without a primary calendar.
pub open spec fn no_calendar_message() -> Seq<char> {
    "Kein Kalender für diesen Mitarbeiter konfiguriert."@
}

/// The primary calendar of an employee's first setting, if it is not blank.
pub fn resolve_employee_calendar_url(settings: &Vec<EmployeeSetting>, employee_reference: &str) -> (r: Result<String, String>)
    ensures
        match first_setting_of(settings@, employee_reference@) {
            Some(s) => if has_primary(s) {
                r matches Ok(u) && Some(u@) == opt_view(s.zep_primary_calendar)
            } else {
                r matches Err(m) && m@ == no_calendar_message()
            },
            None => r matches Err(m) && m@ == no_calendar_message(),
        },
{
    let n = settings.len();
    let mut i: usize = 0;
    assert(settings@.skip(0) =~= settings@);
    while i < n
        invariant
            n == settings@.len(),
            i <= n,
            first_setting_of(settings@, employee_reference@) == first_setting_of(settings@.skip(i as int), employee_reference@),
        decreases n - i,
    {
        proof {
            let tail = settings@.skip(i as int);
            assert(tail[0] == settings@[i as int]);
            assert(tail.drop_first() =~= settings@.skip(i + 1));
        }
        if text_eq(settings[i].daylite_contact_reference.as_str(), employee_reference) {
            return match &settings[i].zep_primary_calendar {
                Some(u) => if u.as_str().unicode_len() > 0 {
                    Ok(u.clone())
                } else {
                    Err("Kein Kalender für diesen Mitarbeiter konfiguriert.".to_owned())
                },
                None => Err("Kein Kalender für diesen Mitarbeiter konfiguriert.".to_owned()),
            };
        }
        i = i + 1;
    }
    assert(settings@.skip(n as int) =~= Seq::<EmployeeSetting>::empty());
    Err("Kein Kalender für diesen Mitarbeiter konfiguriert.".to_owned())
}

/// What is fetched for one employee: reference, primary calendar and, when
/// one is set, absence calendar.
pub open spec fn fetch_target(s: EmployeeSetting) -> (Seq<char>, Seq<char>, Option<Seq<char>>) {
    (
        s.daylite_contact_reference@,
        opt_view(s.zep_primary_calendar)->0,
        match opt_view(s.zep_absence_calendar) {
            Some(a) => if a.len() > 0 {
                Some(a)
            } else {
                None
            },
            None => None,
        },
    )
}

/// The calendars to fetch for the week, one target per employee with a
/// primary calendar.
pub fn week_fetch_targets(settings: &Vec<EmployeeSetting>) -> (r: Vec<(String, String, Option<String>)>)
    ensures
        r@.map_values(|t: (String, String, Option<String>)| (t.0@, t.1@, opt_view(t.2))) == planned_employees(settings@).map_values(
            |s: EmployeeSetting| fetch_target(s),
        ),
{
    let n = settings.len();
    let mut r: Vec<(String, String, Option<String>)> = Vec::new();
    let mut i: usize = 0;
    while i < n
        invariant
            n == settings@.len(),
            i <= n,
            r@.map_values(|t: (String, String, Option<String>)| (t.0@, t.1@, opt_view(t.2))) == planned_employees(
                settings@.take(i as int),
            ).map_values(|s: EmployeeSetting| fetch_target(s)),
        decreases n - i,
    {
        proof {
            assert(settings@.take(i + 1).drop_last() =~= settings@.take(i as int));
            assert(settings@.take(i + 1).last() == settings@[i as int]);
        }
        let s = &settings[i];
        if let Some(primary) = &s.zep_primary_calendar {
            if primary.as_str().unicode_len() > 0 {
                let absence = match &s.zep_absence_calendar {
                    Some(a) => if a.as_str().unicode_len() > 0 {
                        Some(a.clone())
                    } else {
                        None
                    },
                    None => None,
                };
                let ghost before = r@;
                r.push((s.daylite_contact_reference.clone(), primary.clone(), absence));
                assert(r@.map_values(|t: (String, String, Option<String>)| (t.0@, t.1@, opt_view(t.2))) =~= before.map_values(
                    |t: (String, String, Option<String>)| (t.0@, t.1@, opt_view(t.2)),
                ).push(fetch_target(settings@[i as int])));
            }
        }
        i = i + 1;
    }
    assert(settings@.take(n as int) =~= settings@);
    r
}

/// One employee's fetch results as the week takes them: a failed primary
/// calendar becomes an error entry; otherwise the events are classified and
/// the absence calendar's events (when it could be read) become absence cells.
pub fn collect_employee_fetch(
    employee_reference: String,
    primary: Result<Vec<RawVEvent>, String>,
    absence: Option<Vec<RawVEvent>>,
    week_start: CalendarDate,
) -> (r: Result<EmployeeFetch, EmployeeWeekEvents>)
    ensures
        match primary {
            Err(e) => r matches Err(w) && w.employee_reference == employee_reference && w.events@.len() == 0 && w.error == Some(e),
            Ok(raws) => r matches Ok(f) && f.employee_reference == employee_reference && f.pending@.len() == raws@.len()
                && (forall|i: int| 0 <= i < raws@.len() ==> #[trigger] classified(raws@[i], f.pending@[i])) && cell_views(
                f.absences@,
            ) == match absence {
                Some(a) => all_absence_cells(a@, week_start.day as int),
                None => Seq::empty(),
            },
        },
{
    match primary {
        Err(e) => Err(EmployeeWeekEvents { employee_reference, events: Vec::new(), error: Some(e) }),
        Ok(raws) => {
            let mut pending: Vec<PendingEvent> = Vec::new();
            let mut i: usize = 0;
            while i < raws.len()
                invariant
                    i <= raws@.len(),
                    pending@.len() == i,
                    forall|k: int| 0 <= k < i ==> #[trigger] classified(raws@[k], pending@[k]),
                decreases raws.len() - i,
            {
                pending.push(classify_event(&raws[i]));
                i = i + 1;
            }
            let absences = match absence {
                Some(a) => map_absence_raw_events_for_week(a, week_start),
                None => {
                    let v: Vec<CalendarCellEvent> = Vec::new();
                    assert(cell_views(v@) =~= Seq::empty());
                    v
                },
            };
            Ok(EmployeeFetch { employee_reference, pending, absences })
        },
    }
}

/// The pending event is the classification of the raw one.
pub open spec fn classified(raw: RawVEvent, p: PendingEvent) -> bool {
    &&& p.uid@ == super::classify::classified_uid(raw)
    &&& p.date@ == raw.dtstart@
    &&& p.summary@ == raw.summary@
    &&& opt_view(p.project_ref) == super::classify::daylite_reference(raw.description@)
    &&& opt_view(p.start_time) == opt_view(raw.start_time)
    &&& opt_view(p.end_time) == opt_view(raw.end_time)
    &&& p.href@ == raw.href@
    &&& p.order_index == raw.order_index
}

/// Whether a project reference is in the local cache.
pub open spec fn is_cached(cache: DayliteCache, reference: Seq<char>) -> bool {
    exists|i: int| 0 <= i < cache.projects@.len() && #[trigger] cache.projects@[i].reference@ == reference
}

/// The project references of the pending events that the cache does not know,
/// each once, in the order they first occur.
pub open spec fn uncached_refs(refs: Seq<Seq<char>>, cache: DayliteCache) -> Seq<Seq<char>>
    decreases refs.len(),
{
    if refs.len() == 0 {
        Seq::empty()
    } else {
        let prev = uncached_refs(refs.drop_last(), cache);
        let r = refs.last();
        if is_cached(cache, r) || prev.contains(r) {
            prev
        } else {
            prev.push(r)
        }
    }
}

/// The project references of the fetched weeks, in order.
pub open spec fn fetch_refs(fetches: Seq<EmployeeFetch>) -> Seq<Seq<char>>
    decreases fetches.len(),
{
    if fetches.len() == 0 {
        Seq::empty()
    } else {
        fetch_refs(fetches.drop_last()) + pending_refs(fetches.last().pending@)
    }
}

/// The project references of pending events, in order.
pub open spec fn pending_refs(ps: Seq<PendingEvent>) -> Seq<Seq<char>>
    decreases ps.len(),
{
    if ps.len() == 0 {
        Seq::empty()
    } else {
        match opt_view(ps.last().project_ref) {
            Some(r) => pending_refs(ps.drop_last()).push(r),
            None => pending_refs(ps.drop_last()),
        }
    }
}

fn cached(cache: &DayliteCache, reference: &str) -> (r: bool)
    ensures
        r == is_cached(*cache, reference@),
{
    let n = cache.projects.len();
    let mut i: usize = 0;
    while i < n
        invariant
            n == cache.projects@.len(),
            i <= n,
            forall|k: int| 0 <= k < i ==> cache.projects@[k].reference@ != reference@,
        decreases n - i,
    {
        if text_eq(cache.projects[i].reference.as_str(), reference) {
            return true;
        }
        i = i + 1;
    }
    false
}

fn contains_text(v: &Vec<String>, t: &str) -> (r: bool)
    ensures
        r == v@.map_values(|s: String| s@).contains(t@),
{
    let n = v.len();
    let mut i: usize = 0;
    while i < n
        invariant
            n == v@.len(),
            i <= n,
            forall|k: int| 0 <= k < i ==> v@[k]@ != t@,
        decreases n - i,
    {
        if text_eq(v[i].as_str(), t) {
            assert(v@.map_values(|s: String| s@)[i as int] == t@);
            return true;
        }
        i = i + 1;
    }
    proof {
        let vv = v@.map_values(|s: String| s@);
        if vv.contains(t@) {
            let k = choose|k: int| 0 <= k < vv.len() && #[trigger] vv[k] == t@;
            assert(v@[k]@ == t@);
        }
    }
    false
}

/// The project references to look up from Daylite before the week is shown
/// (see `uncached_refs`).
pub fn uncached_project_refs(fetches: &Vec<EmployeeFetch>, cache: &DayliteCache) -> (r: Vec<String>)
    ensures
        r@.map_values(|s: String| s@) == uncached_refs(fetch_refs(fetches@), *cache),
{
    let mut r: Vec<String> = Vec::new();
    let ghost mut seen: Seq<Seq<char>> = Seq::empty();
    let n = fetches.len();
    let mut i: usize = 0;
    while i < n
        invariant
            n == fetches@.len(),
            i <= n,
            seen == fetch_refs(fetches@.take(i as int)),
            r@.map_values(|s: String| s@) == uncached_refs(seen, *cache),
        decreases n - i,
    {
        proof {
            assert(fetches@.take(i + 1).drop_last() =~= fetches@.take(i as int));
            assert(fetches@.take(i + 1).last() == fetches@[i as int]);
        }
        let ps = &fetches[i].pending;
        let m = ps.len();
        let ghost base = seen;
        let mut j: usize = 0;
        while j < m
            invariant
                m == ps@.len(),
                j <= m,
                seen == base + pending_refs(ps@.take(j as int)),
                r@.map_values(|s: String| s@) == uncached_refs(seen, *cache),
            decreases m - j,
        {
            proof {
                assert(ps@.take(j + 1).drop_last() =~= ps@.take(j as int));
                assert(ps@.take(j + 1).last() == ps@[j as int]);
            }
            if let Some(reference) = &ps[j].project_ref {
                proof {
                    assert((base + pending_refs(ps@.take(j as int))).push(reference@) =~= base + pending_refs(ps@.take(j + 1)));
                    seen = seen.push(reference@);
                    assert(seen.drop_last() =~= base + pending_refs(ps@.take(j as int)));
                }
                if !cached(cache, reference.as_str()) && !contains_text(&r, reference.as_str()) {
                    let ghost before = r@;
                    r.push(reference.clone());
                    assert(r@.map_values(|s: String| s@) =~= before.map_values(|s: String| s@).push(reference@));
                }
            } else {
                assert(base + pending_refs(ps@.take(j as int)) =~= base + pending_refs(ps@.take(j + 1)));
            }
            j = j + 1;
        }
        assert(ps@.take(m as int) =~= ps@);
        i = i + 1;
    }
    assert(fetches@.take(n as int) =~= fetches@);
    r
}

fn copy_opt(o: &Option<String>) -> (r: Option<String>)
    ensures
        r == *o,
{
    match o {
        Some(s) => Some(s.clone()),
        None => None,
    }
}

/// The projects a week resolves against: every cached project first (name and
/// status, no category), then the looked-up ones, so that the cache wins.
pub fn projects_for_resolution(cache: &DayliteCache, fetched: Vec<(String, Option<ResolvedProject>)>) -> (r: Vec<
    (String, Option<ResolvedProject>),
>)
    ensures
        r@.len() == cache.projects@.len() + fetched@.len(),
        forall|i: int|
            0 <= i < cache.projects@.len() ==> ((#[trigger] r@[i]).0@ == cache.projects@[i].reference@ && (r@[i].1 matches Some(p)
                && p.name@ == cache.projects@[i].name@ && p.status@ == cache.projects@[i].status@ && p.category is None)),
        forall|i: int| 0 <= i < fetched@.len() ==> r@[cache.projects@.len() + i] == #[trigger] fetched@[i],
{
    let n = cache.projects.len();
    let mut r: Vec<(String, Option<ResolvedProject>)> = Vec::new();
    let mut i: usize = 0;
    while i < n
        invariant
            n == cache.projects@.len(),
            i <= n,
            r@.len() == i,
            forall|k: int|
                0 <= k < i ==> ((#[trigger] r@[k]).0@ == cache.projects@[k].reference@ && (r@[k].1 matches Some(p) && p.name@
                    == cache.projects@[k].name@ && p.status@ == cache.projects@[k].status@ && p.category is None)),
        decreases n - i,
    {
        let c = &cache.projects[i];
        r.push(
            (
                c.reference.clone(),
                Some(ResolvedProject { name: c.name.clone(), status: c.status.clone(), category: None }),
            ),
        );
        i = i + 1;
    }
    let ghost prefix = r@;
    let mut rest = fetched;
    let ghost orig = rest@;
    let m = rest.len();
    let mut j: usize = 0;
    while j < m
        invariant
            m == orig.len(),
            j <= m,
            rest@ == orig.skip(j as int),
            r@ == prefix + orig.take(j as int),
        decreases m - j,
    {
        let e = rest.remove(0);
        assert(e == orig[j as int]);
        r.push(e);
        j = j + 1;
        assert(rest@ =~= orig.skip(j as int));
        assert(r@ =~= prefix + orig.take(j as int));
    }
    assert(orig.take(m as int) =~= orig);
    r
}

/// The colour of the last entry for `name`.
pub open spec fn colour_of(colours: Seq<(Seq<char>, Seq<char>)>, name: Seq<char>) -> Option<Seq<char>>
    decreases colours.len(),
{
    if colours.len() == 0 {
        None
    } else if colours.last().0 == name {
        Some(colours.last().1)
    } else {
        colour_of(colours.drop_last(), name)
    }
}

/// The views of colour entries.
pub open spec fn colours_view(v: Seq<(String, String)>) -> Seq<(Seq<char>, Seq<char>)> {
    v.map_values(|e: (String, String)| (e.0@, e.1@))
}

fn find_colour(colours: &Vec<(String, String)>, name: &str) -> (r: Option<String>)
    ensures
        opt_view(r) == colour_of(colours_view(colours@), name@),
{
    let ghost cv = colours_view(colours@);
    let mut i = colours.len();
    assert(cv.take(i as int) =~= cv);
    while i > 0
        invariant
            i <= colours@.len(),
            cv == colours_view(colours@),
            colour_of(cv, name@) == colour_of(cv.take(i as int), name@),
        decreases i,
    {
        proof {
            assert(cv.take(i as int).last() == cv[i - 1]);
            assert(cv.take(i as int).drop_last() =~= cv.take(i - 1));
        }
        if text_eq(colours[i - 1].0.as_str(), name) {
            return Some(colours[i - 1].1.clone());
        }
        i = i - 1;
    }
    None
}

/// The cell a pending event shows in the week: resolved against the projects
/// (see `resolved_cell`), then coloured by its project category.
pub open spec fn week_cell(
    p: PendingEvent,
    projects: Seq<(String, Option<ResolvedProject>)>,
    colours: Seq<(Seq<char>, Seq<char>)>,
    e: CalendarCellEvent,
) -> bool {
    &&& resolved_cell(p, projects, CalendarCellEvent { category_color: None, ..e })
    &&& opt_view(e.category_color) == match opt_view(e.project_category) {
        Some(c) => colour_of(colours, c),
        None => None,
    }
}

/// The events whose UID did not occur before, in order.
pub open spec fn first_by_uid(events: Seq<CalendarCellEvent>) -> Seq<CalendarCellEvent>
    decreases events.len(),
{
    if events.len() == 0 {
        Seq::empty()
    } else {
        let prev = first_by_uid(events.drop_last());
        if events.drop_last().map_values(|e: CalendarCellEvent| e.uid@).contains(events.last().uid@) {
            prev
        } else {
            prev.push(events.last())
        }
    }
}

/// Drops events whose UID occurred before, guarding against servers that
/// deliver an event twice.
pub fn dedupe_by_uid(events: Vec<CalendarCellEvent>) -> (r: Vec<CalendarCellEvent>)
    ensures
        r@ == first_by_uid(events@),
{
    let ghost orig = events@;
    let n = events.len();
    let mut rest = events;
    let mut seen: Vec<String> = Vec::new();
    let mut r: Vec<CalendarCellEvent> = Vec::new();
    let mut i: usize = 0;
    while i < n
        invariant
            n == orig.len(),
            i <= n,
            rest@ == orig.skip(i as int),
            r@ == first_by_uid(orig.take(i as int)),
            seen@.len() == i,
            seen@.map_values(|s: String| s@) == orig.take(i as int).map_values(|e: CalendarCellEvent| e.uid@),
        decreases n - i,
    {
        let e = rest.remove(0);
        assert(e == orig[i as int]);
        proof {
            assert(orig.take(i + 1).drop_last() =~= orig.take(i as int));
            assert(orig.take(i + 1).last() == e);
        }
        let dup = contains_text(&seen, e.uid.as_str());
        let ghost before_seen = seen@;
        seen.push(e.uid.clone());
        proof {
            let sv = seen@.map_values(|s: String| s@);
            let ov = orig.take(i + 1).map_values(|e: CalendarCellEvent| e.uid@);
            assert forall|k: int| 0 <= k < i + 1 implies #[trigger] sv[k] == ov[k] by {
                if k < i {
                    assert(seen@[k] == before_seen[k]);
                    assert(before_seen.map_values(|s: String| s@)[k] == orig.take(i as int).map_values(|e: CalendarCellEvent| e.uid@)[k]);
                }
            }
            assert(sv =~= ov);
        }
        if !dup {
            r.push(e);
        }
        i = i + 1;
        assert(rest@ =~= orig.skip(i as int));
    }
    assert(orig.take(n as int) =~= orig);
    r
}

/// One employee's week as the grid shows it: the resolved and coloured
/// assignments and bare events, then the absences, without repeated UIDs,
/// sorted by day with absences first.
pub open spec fn is_week_of(
    fetch: EmployeeFetch,
    projects: Seq<(String, Option<ResolvedProject>)>,
    colours: Seq<(Seq<char>, Seq<char>)>,
    w: EmployeeWeekEvents,
) -> bool {
    &&& w.employee_reference == fetch.employee_reference
    &&& w.error is None
    &&& exists|cells: Seq<CalendarCellEvent>|
        #[trigger] resolves_all(fetch.pending@, projects, colours, cells) && is_stable_sort_by(
            first_by_uid(cells + fetch.absences@),
            w.events@,
            |e: CalendarCellEvent| event_order_key(e),
        )
}

/// Each cell is the week cell of the pending event at its position.
pub open spec fn resolves_all(
    pending: Seq<PendingEvent>,
    projects: Seq<(String, Option<ResolvedProject>)>,
    colours: Seq<(Seq<char>, Seq<char>)>,
    cells: Seq<CalendarCellEvent>,
) -> bool {
    &&& cells.len() == pending.len()
    &&& forall|i: int| 0 <= i < pending.len() ==> #[trigger] week_cell(pending[i], projects, colours, cells[i])
}

fn week_of(
    fetch: EmployeeFetch,
    projects: &Vec<(String, Option<ResolvedProject>)>,
    colours: &Vec<(String, String)>,
) -> (r: EmployeeWeekEvents)
    ensures
        is_week_of(fetch, projects@, colours_view(colours@), r),
{
    let ghost f = fetch;
    let EmployeeFetch { employee_reference, pending, absences } = fetch;
    let ghost orig = pending@;
    let n = pending.len();
    let mut rest = pending;
    let mut cells: Vec<CalendarCellEvent> = Vec::new();
    let mut i: usize = 0;
    while i < n
        invariant
            n == orig.len(),
            i <= n,
            rest@ == orig.skip(i as int),
            cells@.len() == i,
            forall|k: int| 0 <= k < i ==> #[trigger] week_cell(orig[k], projects@, colours_view(colours@), cells@[k]),
        decreases n - i,
    {
        let p = rest.remove(0);
        assert(p == orig[i as int]);
        let cell = resolve_event(p, projects);
        let colour = match &cell.project_category {
            Some(c) => find_colour(colours, c.as_str()),
            None => None,
        };
        let coloured = CalendarCellEvent { category_color: colour, ..cell };
        assert(CalendarCellEvent { category_color: None, ..coloured } == cell);
        cells.push(coloured);
        i = i + 1;
        assert(rest@ =~= orig.skip(i as int));
    }
    let ghost cells_v = cells@;
    let mut all = cells;
    let mut abs = absences;
    all.append(&mut abs);
    let mut events = dedupe_by_uid(all);
    let ghost deduped = events@;
    sort_events_absences_first(&mut events);
    assert(resolves_all(f.pending@, projects@, colours_view(colours@), cells_v));
    assert(deduped == first_by_uid(cells_v + f.absences@));
    EmployeeWeekEvents { employee_reference, events, error: None }
}

/// The week of every employee: first those whose calendar failed, then one
/// assembled week per fetched employee (see `is_week_of`), in order.
pub fn assemble_week_events(
    fetches: Vec<EmployeeFetch>,
    error_results: Vec<EmployeeWeekEvents>,
    projects: &Vec<(String, Option<ResolvedProject>)>,
    category_colours: &Vec<(String, String)>,
) -> (r: Vec<EmployeeWeekEvents>)
    ensures
        r@.len() == error_results@.len() + fetches@.len(),
        forall|i: int| 0 <= i < error_results@.len() ==> #[trigger] r@[i] == error_results@[i],
        forall|i: int|
            0 <= i < fetches@.len() ==> is_week_of(#[trigger] fetches@[i], projects@, colours_view(category_colours@), r@[error_results@.len() + i]),
{
    let ghost errs = error_results@;
    let ghost orig = fetches@;
    let mut results = error_results;
    let n = fetches.len();
    let mut rest = fetches;
    let mut i: usize = 0;
    while i < n
        invariant
            n == orig.len(),
            i <= n,
            rest@ == orig.skip(i as int),
            results@.len() == errs.len() + i,
            forall|k: int| 0 <= k < errs.len() ==> #[trigger] results@[k] == errs[k],
            forall|k: int|
                0 <= k < i ==> is_week_of(#[trigger] orig[k], projects@, colours_view(category_colours@), results@[errs.len() + k]),
        decreases n - i,
    {
        let f = rest.remove(0);
        assert(f == orig[i as int]);
        let w = week_of(f, projects, category_colours);
        results.push(w);
        i = i + 1;
        assert(rest@ =~= orig.skip(i as int));
    }
    results
}

} // verus!
