//! Resolution of classified events into grid cells, using the projects that
//! were looked up for their Daylite references.

use super::types::{carries_times, CalendarCellEvent, CalendarEventKind, PendingEvent};
use crate::daylite::projects::ResolvedProject;
use crate::local_store::{DayliteCache, DayliteProjectCacheEntry};
use crate::text::{concat, opt_view, text_eq};
use vstd::prelude::*;
use vstd::string::StrSliceExecFns;

verus! {

/// The lookup result recorded for `key`: the entry of the first pair whose key is `key`.
pub open spec fn lookup_resolved(entries: Seq<(String, Option<ResolvedProject>)>, key: Seq<char>) -> Option<
    Option<ResolvedProject>,
> {
    if exists|i: int| 0 <= i < entries.len() && entries[i].0@ == key {
        let i = choose|i: int|
            0 <= i < entries.len() && entries[i].0@ == key && forall|j: int|
                0 <= j < i ==> entries[j].0@ != key;
        Some(entries[i].1)
    } else {
        None
    }
}

/// Finds the lookup result recorded for `key`.
pub fn find_resolved<'a>(entries: &'a Vec<(String, Option<ResolvedProject>)>, key: &str) -> (r: Option<
    &'a Option<ResolvedProject>,
>)
    ensures
        match r {
            Some(p) => lookup_resolved(entries@, key@) == Some(*p),
            None => lookup_resolved(entries@, key@) is None,
        },
{
    let mut i: usize = 0;
    while i < entries.len()
        invariant
            i <= entries.len(),
            forall|j: int| 0 <= j < i ==> entries@[j].0@ != key@,
        decreases entries.len() - i,
    {
        if text_eq(entries[i].0.as_str(), key) {
            proof {
                let w = choose|w: int|
                    0 <= w < entries@.len() && entries@[w].0@ == key@ && forall|j: int|
                        0 <= j < w ==> entries@[j].0@ != key@;
                assert(0 <= i < entries@.len() && entries@[i as int].0@ == key@);
                if w < i {
                } else if w > i {
                    assert(entries@[i as int].0@ != key@);
                }
            }
            return Some(&entries[i].1);
        }
        i = i + 1;
    }
    None
}

/// The grid cell a pending event resolves to: a bare event keeps its summary;
/// an assignment whose project was resolved shows the project's name, status
/// and category; an assignment whose project is unknown or could not be
/// resolved shows its summary and no status.
pub open spec fn resolved_cell(p: PendingEvent, entries: Seq<(String, Option<ResolvedProject>)>, e: CalendarCellEvent) -> bool {
    &&& carries_times(p, e)
    &&& e.category_color is None
    &&& match p.project_ref {
        None => {
            &&& e.kind == CalendarEventKind::Bare
            &&& e.title@ == p.summary@
            &&& e.project_status is None
            &&& e.project_category is None
            &&& e.project_ref is None
        },
        Some(r) => {
            &&& e.kind == CalendarEventKind::Assignment
            &&& opt_view(e.project_ref) == Some(r@)
            &&& match lookup_resolved(entries, r@) {
                Some(Some(project)) => {
                    &&& e.title@ == project.name@
                    &&& opt_view(e.project_status) == Some(project.status@)
                    &&& opt_view(e.project_category) == opt_view(project.category)
                },
                _ => {
                    &&& e.title@ == p.summary@
                    &&& e.project_status is None
                    &&& e.project_category is None
                },
            }
        },
    }
}

fn href_option(href: String) -> (r: Option<String>)
    ensures
        opt_view(r) == (if href@.len() == 0 { None } else { Some(href@) }),
{
    if href.as_str().unicode_len() == 0 {
        None
    } else {
        Some(href)
    }
}

/// Resolves a pending event against the looked-up projects.
pub fn resolve_event(pending: PendingEvent, resolved_projects: &Vec<(String, Option<ResolvedProject>)>) -> (r:
    CalendarCellEvent)
    ensures
        resolved_cell(pending, resolved_projects@, r),
{
    let ghost p = pending;
    let PendingEvent { uid, date, summary, project_ref, start_time, end_time, href, order_index } = pending;
    let href = href_option(href);
    match project_ref {
        None => CalendarCellEvent {
            uid,
            kind: CalendarEventKind::Bare,
            title: summary,
            project_status: None,
            project_category: None,
            category_color: None,
            project_ref: None,
            date,
            start_time,
            end_time,
            href,
            order_index,
        },
        Some(project_ref) => {
            let found = find_resolved(resolved_projects, project_ref.as_str());
            match found {
                Some(Some(project)) => CalendarCellEvent {
                    uid,
                    kind: CalendarEventKind::Assignment,
                    title: project.name.clone(),
                    project_status: Some(project.status.clone()),
                    project_category: crate::calendar::classify::clone_opt(&project.category),
                    category_color: None,
                    project_ref: Some(project_ref),
                    date,
                    start_time,
                    end_time,
                    href,
                    order_index,
                },
                _ => CalendarCellEvent {
                    uid,
                    kind: CalendarEventKind::Assignment,
                    title: summary,
                    project_status: None,
                    project_category: None,
                    category_color: None,
                    project_ref: Some(project_ref),
                    date,
                    start_time,
                    end_time,
                    href,
                    order_index,
                },
            }
        },
    }
}

/// The first cached project with the given reference.
pub open spec fn lookup_cached_project(projects: Seq<DayliteProjectCacheEntry>, key: Seq<char>) -> Option<
    DayliteProjectCacheEntry,
> {
    if exists|i: int| 0 <= i < projects.len() && projects[i].reference@ == key {
        let i = choose|i: int|
            0 <= i < projects.len() && projects[i].reference@ == key && forall|j: int|
                0 <= j < i ==> projects[j].reference@ != key;
        Some(projects[i])
    } else {
        None
    }
}

/// The name and status recorded for `key` by a project lookup: the entry of the first pair with that key.
pub open spec fn lookup_fetched(entries: Seq<(String, Option<(String, String)>)>, key: Seq<char>) -> Option<
    Option<(String, String)>,
> {
    if exists|i: int| 0 <= i < entries.len() && entries[i].0@ == key {
        let i = choose|i: int|
            0 <= i < entries.len() && entries[i].0@ == key && forall|j: int|
                0 <= j < i ==> entries[j].0@ != key;
        Some(entries[i].1)
    } else {
        None
    }
}

/// The title shown when a project cannot be resolved: `Beschreibung für {summary} konnte nicht abgerufen werden`.
pub open spec fn unresolved_title(summary: Seq<char>) -> Seq<char> {
    seq!['B', 'e', 's', 'c', 'h', 'r', 'e', 'i', 'b', 'u', 'n', 'g', ' ', 'f', 'ü', 'r', ' '] + summary
        + seq![
        ' ', 'k', 'o', 'n', 'n', 't', 'e', ' ', 'n', 'i', 'c', 'h', 't', ' ', 'a', 'b', 'g', 'e', 'r', 'u', 'f',
        'e', 'n', ' ', 'w', 'e', 'r', 'd', 'e', 'n',
    ]
}

/// The grid cell a pending event resolves to against the local project cache
/// first and the fetched project records second; an assignment found in
/// neither shows the unresolved-title placeholder.
pub open spec fn cached_cell(
    p: PendingEvent,
    cache: DayliteCache,
    fetched: Seq<(String, Option<(String, String)>)>,
    e: CalendarCellEvent,
) -> bool {
    &&& carries_times(p, e)
    &&& e.category_color is None
    &&& e.project_category is None
    &&& match p.project_ref {
        None => {
            &&& e.kind == CalendarEventKind::Bare
            &&& e.title@ == p.summary@
            &&& e.project_status is None
            &&& e.project_ref is None
        },
        Some(r) => {
            &&& e.kind == CalendarEventKind::Assignment
            &&& opt_view(e.project_ref) == Some(r@)
            &&& match lookup_cached_project(cache.projects@, r@) {
                Some(c) => {
                    &&& e.title@ == c.name@
                    &&& opt_view(e.project_status) == Some(c.status@)
                },
                None => match lookup_fetched(fetched, r@) {
                    Some(Some(f)) => {
                        &&& e.title@ == f.0@
                        &&& opt_view(e.project_status) == Some(f.1@)
                    },
                    _ => {
                        &&& e.title@ == unresolved_title(p.summary@)
                        &&& e.project_status is None
                    },
                },
            }
        },
    }
}

fn find_cached_project<'a>(projects: &'a Vec<DayliteProjectCacheEntry>, key: &str) -> (r: Option<
    &'a DayliteProjectCacheEntry,
>)
    ensures
        match r {
            Some(p) => lookup_cached_project(projects@, key@) == Some(*p),
            None => lookup_cached_project(projects@, key@) is None,
        },
{
    let mut i: usize = 0;
    while i < projects.len()
        invariant
            i <= projects.len(),
            forall|j: int| 0 <= j < i ==> projects@[j].reference@ != key@,
        decreases projects.len() - i,
    {
        if text_eq(projects[i].reference.as_str(), key) {
            proof {
                let w = choose|w: int|
                    0 <= w < projects@.len() && projects@[w].reference@ == key@ && forall|j: int|
                        0 <= j < w ==> projects@[j].reference@ != key@;
                assert(0 <= i < projects@.len() && projects@[i as int].reference@ == key@);
                if w < i {
                } else if w > i {
                    assert(projects@[i as int].reference@ != key@);
                }
            }
            return Some(&projects[i]);
        }
        i = i + 1;
    }
    None
}

fn find_fetched<'a>(entries: &'a Vec<(String, Option<(String, String)>)>, key: &str) -> (r: Option<
    &'a Option<(String, String)>,
>)
    ensures
        match r {
            Some(p) => lookup_fetched(entries@, key@) == Some(*p),
            None => lookup_fetched(entries@, key@) is None,
        },
{
    let mut i: usize = 0;
    while i < entries.len()
        invariant
            i <= entries.len(),
            forall|j: int| 0 <= j < i ==> entries@[j].0@ != key@,
        decreases entries.len() - i,
    {
        if text_eq(entries[i].0.as_str(), key) {
            proof {
                let w = choose|w: int|
                    0 <= w < entries@.len() && entries@[w].0@ == key@ && forall|j: int|
                        0 <= j < w ==> entries@[j].0@ != key@;
                assert(0 <= i < entries@.len() && entries@[i as int].0@ == key@);
                if w < i {
                } else if w > i {
                    assert(entries@[i as int].0@ != key@);
                }
            }
            return Some(&entries[i].1);
        }
        i = i + 1;
    }
    None
}

/// Resolves a pending event against the local project cache first and the
/// fetched project records second, with a placeholder title when neither knows it.
pub fn resolve_event_with_cache(
    pending: PendingEvent,
    cache: &DayliteCache,
    fetched: &Vec<(String, Option<(String, String)>)>,
) -> (r: CalendarCellEvent)
    ensures
        cached_cell(pending, *cache, fetched@, r),
{
    let PendingEvent { uid, date, summary, project_ref, start_time, end_time, href, order_index } = pending;
    let href = href_option(href);
    match project_ref {
        None => CalendarCellEvent {
            uid,
            kind: CalendarEventKind::Bare,
            title: summary,
            project_status: None,
            project_category: None,
            category_color: None,
            project_ref: None,
            date,
            start_time,
            end_time,
            href,
            order_index,
        },
        Some(project_ref) => {
            let (title, status) = match find_cached_project(&cache.projects, project_ref.as_str()) {
                Some(cached) => (cached.name.clone(), Some(cached.status.clone())),
                None => match find_fetched(fetched, project_ref.as_str()) {
                    Some(Some(found)) => (found.0.clone(), Some(found.1.clone())),
                    _ => {
                        let mut t = concat("Beschreibung für ", summary.as_str());
                        crate::text::push_str(&mut t, " konnte nicht abgerufen werden");
                        proof {
                            reveal_strlit("Beschreibung für ");
                            reveal_strlit(" konnte nicht abgerufen werden");
                            assert(t@ =~= unresolved_title(summary@));
                        }
                        (t, None)
                    },
                },
            };
            CalendarCellEvent {
                uid,
                kind: CalendarEventKind::Assignment,
                title,
                project_status: status,
                project_category: None,
                category_color: None,
                project_ref: Some(project_ref),
                date,
                start_time,
                end_time,
                href,
                order_index,
            }
        },
    }
}

} // verus!
