//! Daylite projects as the planner shows and resolves them.

use super::shared::{trimmed_or_none, trimmed_or_none_spec, DayliteSearchResult, DayliteSearchSort};
use crate::dates::{rfc3339_to_utc_millis, rfc3339_utc_millis, ymd_to_utc_midnight_millis, ymd_utc_midnight_millis};
use crate::sort::{is_stable_sort_by, sort_by_keys, SortKey};
use crate::text::{is_snake_name, lemma_snake_name_is_normal, lowercased, opt_view, parse_u64, parse_u64_spec, push_char, strip_prefix, strip_prefix_spec, text_eq, to_lowercase, trimmed};
use vstd::prelude::*;
use vstd::string::StrSliceExecFns;

verus! {

/// A project as Daylite's API sends it.
#[derive(Clone, Debug, PartialEq, Eq)]
pub struct DayliteProjectSummaryDto {
    /// The project's API path (`self`).
    pub reference: String,
    pub name: String,
    pub status: Option<String>,
    pub category: Option<String>,
    pub keywords: Vec<String>,
    pub due: Option<String>,
    pub started: Option<String>,
    pub completed: Option<String>,
    pub create_date: Option<String>,
    pub modify_date: Option<String>,
}

/// A project with every field trimmed, blank fields absent and dates in UTC
/// RFC 3339 with milliseconds.
#[derive(Clone, Debug, PartialEq, Eq)]
pub struct DayliteProjectSummary {
    pub reference: String,
    pub name: String,
    pub status: Option<String>,
    pub category: Option<String>,
    pub keywords: Vec<String>,
    pub due: Option<String>,
    pub started: Option<String>,
    pub completed: Option<String>,
    pub create_date: Option<String>,
    pub modify_date: Option<String>,
}

/// The status of a project as the planner knows it.
#[derive(Clone, Copy, Debug, PartialEq, Eq, Structural)]
pub enum PlanningProjectStatus {
    NewStatus,
    InProgress,
    Done,
    Abandoned,
    Cancelled,
    Deferred,
}

/// A project as the planning screens use it.
#[derive(Clone, Debug, PartialEq, Eq)]
pub struct PlanningProjectRecord {
    pub reference: String,
    pub name: String,
    pub status: PlanningProjectStatus,
    pub category: Option<String>,
    pub keywords: Vec<String>,
    pub due: Option<String>,
    pub started: Option<String>,
    pub completed: Option<String>,
    pub create_date: Option<String>,
    pub modify_date: Option<String>,
}

/// The parts of a Daylite project an assignment cell shows.
#[derive(Clone, Debug, PartialEq, Eq)]
pub struct ResolvedProject {
    pub name: String,
    pub status: String,
    pub category: Option<String>,
}

/// The category that marks a project's appointment as fixed.
pub open spec fn fixed_appointment_category() -> Seq<char> {
    seq!['T', 'e', 'r', 'm', 'i', 'n', ' ', 'F', 'I', 'X', ' ', 'g', 'e', 'p', 'l', 'a', 'n', 't']
}

/// `Termin FIX geplant`, the category of fixed appointments.
pub fn fixed_appointment_category_text() -> (r: &'static str)
    ensures
        r@ == fixed_appointment_category(),
{
    let r = "Termin FIX geplant";
    proof {
        reveal_strlit("Termin FIX geplant");
    }
    r
}


/// The category Daylite's overdue projects carry.
pub open spec fn overdue_category() -> Seq<char> {
    "Überfällig"@
}

/// `Überfällig`, the category of overdue projects.
pub fn overdue_category_text() -> (r: &'static str)
    ensures
        r@ == overdue_category(),
{
    "Überfällig"
}

/// The number of overdue projects the planner shows.
pub const OVERDUE_DISPLAY_LIMIT: usize = 5;

/// The number of overdue candidates asked from Daylite, so that the ones with
/// the lowest IDs are among them whatever order Daylite truncates in.
pub const OVERDUE_CANDIDATE_LIMIT: u16 = 50;

/// The text after the last `/` (all of it when there is none).
pub open spec fn after_last_slash(s: Seq<char>) -> Seq<char>
    decreases s.len(),
{
    if s.len() == 0 {
        s
    } else if s.last() == '/' {
        Seq::empty()
    } else {
        after_last_slash(s.drop_last()).push(s.last())
    }
}

/// The numeric ID at the end of a reference, `u64::MAX` when there is none.
pub open spec fn numeric_id(reference: Seq<char>) -> u64 {
    match parse_u64_spec(after_last_slash(reference)) {
        Some(n) => n,
        None => u64::MAX,
    }
}

/// The text after the last `/`.
pub(crate) fn last_segment(s: &str) -> (r: String)
    ensures
        r@ == after_last_slash(s@),
{
    let n = s.unicode_len();
    let mut b: usize = n;
    assert(s@.subrange(0, n as int) =~= s@);
    assert(s@.subrange(n as int, n as int) =~= Seq::<char>::empty());
    assert(s@ + Seq::<char>::empty() =~= s@);
    while b > 0 && s.get_char(b - 1) != '/'
        invariant
            n == s@.len(),
            b <= n,
            after_last_slash(s@) == after_last_slash(s@.subrange(0, b as int)) + s@.subrange(b as int, n as int),
        decreases b,
    {
        proof {
            let t = s@.subrange(0, b as int);
            assert(t.drop_last() =~= s@.subrange(0, b - 1));
            assert(s@.subrange(b - 1, n as int) =~= seq![t.last()] + s@.subrange(b as int, n as int));
            assert(after_last_slash(t) == after_last_slash(t.drop_last()).push(t.last()));
            assert(after_last_slash(t.drop_last()).push(t.last()) + s@.subrange(b as int, n as int) =~= after_last_slash(
                t.drop_last(),
            ) + (seq![t.last()] + s@.subrange(b as int, n as int)));
        }
        b = b - 1;
    }
    proof {
        assert(s@.subrange(0, n as int) =~= s@);
        assert(s@.subrange(n as int, n as int) =~= Seq::<char>::empty());
        let t = s@.subrange(0, b as int);
        assert(after_last_slash(t) =~= Seq::<char>::empty());
        assert(after_last_slash(s@) =~= s@.subrange(b as int, n as int));
    }
    s.substring_char(b, n).to_owned()
}

/// The numeric ID at the end of a project reference (`/v1/projects/3001` is
/// 3001); a reference without one sorts last as `u64::MAX`.
pub fn extract_numeric_id(reference: &str) -> (r: u64)
    ensures
        r == numeric_id(reference@),
{
    let seg = last_segment(reference);
    match parse_u64(seg.as_str()) {
        Some(n) => n,
        None => u64::MAX,
    }
}

/// A status by its lowercase Daylite name; anything unknown is a new project.
pub open spec fn status_named(name: Seq<char>) -> PlanningProjectStatus {
    if name == "in_progress"@ {
        PlanningProjectStatus::InProgress
    } else if name == "done"@ {
        PlanningProjectStatus::Done
    } else if name == "abandoned"@ {
        PlanningProjectStatus::Abandoned
    } else if name == "cancelled"@ {
        PlanningProjectStatus::Cancelled
    } else if name == "deferred"@ {
        PlanningProjectStatus::Deferred
    } else {
        PlanningProjectStatus::NewStatus
    }
}

/// The planning status of a Daylite status: trimmed, lowercased, and a new
/// project when absent or unknown.
pub open spec fn project_status_spec(status: Option<Seq<char>>) -> PlanningProjectStatus {
    match trimmed_or_none_spec(status) {
        Some(t) => status_named(lowercased(t)),
        None => PlanningProjectStatus::NewStatus,
    }
}

/// Maps a Daylite status to the planning status.
pub fn map_project_status(status: Option<String>) -> (r: PlanningProjectStatus)
    ensures
        r == project_status_spec(opt_view(status)),
{
    let t = trimmed_or_none(status);
    let lower = match t {
        Some(v) => to_lowercase(v.as_str()),
        None => return PlanningProjectStatus::NewStatus,
    };
    let l = lower.as_str();
    if text_eq(l, "in_progress") {
        PlanningProjectStatus::InProgress
    } else if text_eq(l, "done") {
        PlanningProjectStatus::Done
    } else if text_eq(l, "abandoned") {
        PlanningProjectStatus::Abandoned
    } else if text_eq(l, "cancelled") {
        PlanningProjectStatus::Cancelled
    } else if text_eq(l, "deferred") {
        PlanningProjectStatus::Deferred
    } else {
        PlanningProjectStatus::NewStatus
    }
}

/// The Daylite name of a planning status.
pub open spec fn status_name(status: PlanningProjectStatus) -> Seq<char> {
    match status {
        PlanningProjectStatus::InProgress => "in_progress"@,
        PlanningProjectStatus::Done => "done"@,
        PlanningProjectStatus::Abandoned => "abandoned"@,
        PlanningProjectStatus::Cancelled => "cancelled"@,
        PlanningProjectStatus::Deferred => "deferred"@,
        PlanningProjectStatus::NewStatus => "new_status"@,
    }
}

/// The Daylite name of a planning status.
pub fn project_status_to_string(status: &PlanningProjectStatus) -> (r: &'static str)
    ensures
        r@ == status_name(*status),
{
    match status {
        PlanningProjectStatus::InProgress => "in_progress",
        PlanningProjectStatus::Done => "done",
        PlanningProjectStatus::Abandoned => "abandoned",
        PlanningProjectStatus::Cancelled => "cancelled",
        PlanningProjectStatus::Deferred => "deferred",
        PlanningProjectStatus::NewStatus => "new_status",
    }
}

/// A date field in UTC RFC 3339 with milliseconds: an RFC 3339 timestamp is
/// converted to UTC, a `yyyy-MM-dd` date becomes its midnight UTC, and
/// anything else (or a blank field) is absent.
pub open spec fn normalized_date(value: Option<Seq<char>>) -> Option<Seq<char>> {
    match trimmed_or_none_spec(value) {
        Some(t) => match rfc3339_utc_millis(t) {
            Some(x) => Some(x),
            None => ymd_utc_midnight_millis(t),
        },
        None => None,
    }
}

/// Normalises a date field (see `normalized_date`).
pub fn normalize_optional_date(value: Option<String>) -> (r: Option<String>)
    ensures
        opt_view(r) == normalized_date(opt_view(value)),
{
    let raw = match trimmed_or_none(value) {
        Some(t) => t,
        None => return None,
    };
    match rfc3339_to_utc_millis(raw.as_str()) {
        Some(x) => Some(x),
        None => ymd_to_utc_midnight_millis(raw.as_str()),
    }
}

/// The keywords trimmed, with blank ones dropped.
pub open spec fn normalized_keywords(keywords: Seq<Seq<char>>) -> Seq<Seq<char>>
    decreases keywords.len(),
{
    if keywords.len() == 0 {
        Seq::empty()
    } else if trimmed(keywords.last()).len() == 0 {
        normalized_keywords(keywords.drop_last())
    } else {
        normalized_keywords(keywords.drop_last()).push(trimmed(keywords.last()))
    }
}

/// The views of a list of texts.
pub open spec fn texts_view(v: Seq<String>) -> Seq<Seq<char>> {
    v.map_values(|s: String| s@)
}

fn normalize_keywords(keywords: Vec<String>) -> (r: Vec<String>)
    ensures
        texts_view(r@) == normalized_keywords(texts_view(keywords@)),
{
    let n = keywords.len();
    let mut r: Vec<String> = Vec::new();
    let mut i: usize = 0;
    while i < n
        invariant
            n == keywords@.len(),
            i <= n,
            texts_view(r@) == normalized_keywords(texts_view(keywords@.take(i as int))),
        decreases n - i,
    {
        proof {
            assert(texts_view(keywords@.take(i + 1)).drop_last() =~= texts_view(keywords@.take(i as int)));
            assert(texts_view(keywords@.take(i + 1)).last() == keywords@[i as int]@);
        }
        let t = crate::text::trim(keywords[i].as_str());
        if t.as_str().unicode_len() > 0 {
            let ghost before = r@;
            r.push(t);
            assert(texts_view(r@) =~= texts_view(before).push(trimmed(keywords@[i as int]@)));
        }
        i = i + 1;
    }
    assert(keywords@.take(n as int) =~= keywords@);
    r
}

/// The normalised summary of a project as Daylite sent it.
pub open spec fn is_normalized_summary(p: DayliteProjectSummary, dto: DayliteProjectSummaryDto) -> bool {
    &&& p.reference@ == trimmed(dto.reference@)
    &&& p.name@ == trimmed(dto.name@)
    &&& opt_view(p.status) == trimmed_or_none_spec(opt_view(dto.status))
    &&& opt_view(p.category) == trimmed_or_none_spec(opt_view(dto.category))
    &&& texts_view(p.keywords@) == normalized_keywords(texts_view(dto.keywords@))
    &&& opt_view(p.due) == normalized_date(opt_view(dto.due))
    &&& opt_view(p.started) == normalized_date(opt_view(dto.started))
    &&& opt_view(p.completed) == normalized_date(opt_view(dto.completed))
    &&& opt_view(p.create_date) == normalized_date(opt_view(dto.create_date))
    &&& opt_view(p.modify_date) == normalized_date(opt_view(dto.modify_date))
}

/// Trims every field, drops blank keywords and normalises the dates.
pub fn normalize_project_summary(project: DayliteProjectSummaryDto) -> (r: DayliteProjectSummary)
    ensures
        is_normalized_summary(r, project),
{
    DayliteProjectSummary {
        reference: super::shared::trimmed(project.reference),
        name: super::shared::trimmed(project.name),
        status: trimmed_or_none(project.status),
        category: trimmed_or_none(project.category),
        keywords: normalize_keywords(project.keywords),
        due: normalize_optional_date(project.due),
        started: normalize_optional_date(project.started),
        completed: normalize_optional_date(project.completed),
        create_date: normalize_optional_date(project.create_date),
        modify_date: normalize_optional_date(project.modify_date),
    }
}

/// The planning record of a project: its normalised summary with the status
/// mapped to a planning status.
pub fn map_daylite_project_summary(project: DayliteProjectSummaryDto) -> (r: PlanningProjectRecord)
    ensures
        r.reference@ == trimmed(project.reference@),
        r.name@ == trimmed(project.name@),
        r.status == project_status_spec(opt_view(project.status)),
        opt_view(r.category) == trimmed_or_none_spec(opt_view(project.category)),
        texts_view(r.keywords@) == normalized_keywords(texts_view(project.keywords@)),
        opt_view(r.due) == normalized_date(opt_view(project.due)),
        opt_view(r.started) == normalized_date(opt_view(project.started)),
        opt_view(r.completed) == normalized_date(opt_view(project.completed)),
        opt_view(r.create_date) == normalized_date(opt_view(project.create_date)),
        opt_view(r.modify_date) == normalized_date(opt_view(project.modify_date)),
{
    let ghost dto = project;
    let p = normalize_project_summary(project);
    proof {
        assert(trimmed_or_none_spec(trimmed_or_none_spec(opt_view(dto.status))) == trimmed_or_none_spec(opt_view(dto.status))) by {
            if let Some(v) = opt_view(dto.status) {
                crate::text::lemma_trimmed_idempotent(v);
            }
        }
    }
    PlanningProjectRecord {
        reference: p.reference,
        name: p.name,
        status: map_project_status(p.status),
        category: p.category,
        keywords: p.keywords,
        due: p.due,
        started: p.started,
        completed: p.completed,
        create_date: p.create_date,
        modify_date: p.modify_date,
    }
}

/// What an assignment cell shows of a project: its trimmed name, the Daylite
/// name of its planning status and its category.
pub fn resolve_project(summary: DayliteProjectSummaryDto) -> (r: ResolvedProject)
    ensures
        r.name@ == trimmed(summary.name@),
        r.status@ == status_name(project_status_spec(opt_view(summary.status))),
        opt_view(r.category) == trimmed_or_none_spec(opt_view(summary.category)),
{
    let mapped = map_daylite_project_summary(summary);
    ResolvedProject {
        name: mapped.name,
        status: project_status_to_string(&mapped.status).to_owned(),
        category: mapped.category,
    }
}

/// The API path of a project reference: without its `/v1` prefix (the client
/// adds the version); none when nothing is left.
pub open spec fn project_path_spec(project_ref: Seq<char>) -> Option<Seq<char>> {
    let path = match strip_prefix_spec(project_ref, "/v1"@) {
        Some(rest) => rest,
        None => project_ref,
    };
    if path.len() == 0 {
        None
    } else {
        Some(path)
    }
}

/// The API path a project is fetched from.
pub fn project_path(project_ref: &str) -> (r: Option<String>)
    ensures
        opt_view(r) == project_path_spec(project_ref@),
{
    let path = match strip_prefix(project_ref, "/v1") {
        Some(rest) => rest,
        None => project_ref.to_owned(),
    };
    if path.as_str().unicode_len() == 0 {
        None
    } else {
        Some(path)
    }
}

/// The sort key of a summary by numeric ID.
pub open spec fn id_key(p: DayliteProjectSummary) -> (u64, Seq<char>, u64) {
    (numeric_id(p.reference@), Seq::empty(), 0u64)
}

/// The sort key of a summary by name.
pub open spec fn name_key(p: DayliteProjectSummary) -> (u64, Seq<char>, u64) {
    (0u64, p.name@, 0u64)
}

/// The key a search sorts its results by.
pub open spec fn search_key(sort: Option<DayliteSearchSort>) -> spec_fn(DayliteProjectSummary) -> (u64, Seq<char>, u64) {
    match sort {
        Some(DayliteSearchSort::Name) => |p: DayliteProjectSummary| name_key(p),
        _ => |p: DayliteProjectSummary| id_key(p),
    }
}

/// Sorts summaries stably by numeric ID, or by name.
fn sort_summaries(items: Vec<DayliteProjectSummary>, sort: Option<DayliteSearchSort>) -> (r: Vec<DayliteProjectSummary>)
    ensures
        is_stable_sort_by(items@, r@, search_key(sort)),
{
    let ghost key = search_key(sort);
    let by_name = match sort {
        Some(DayliteSearchSort::Name) => true,
        _ => false,
    };
    let mut keys: Vec<SortKey> = Vec::new();
    let mut i: usize = 0;
    while i < items.len()
        invariant
            i <= items@.len(),
            key == search_key(sort),
            by_name == (sort == Some(DayliteSearchSort::Name)),
            keys@.len() == i,
            forall|j: int| 0 <= j < i ==> #[trigger] keys@[j]@ == key(items@[j]),
        decreases items@.len() - i,
    {
        if by_name {
            keys.push(SortKey { major: 0, text: items[i].name.clone(), minor: 0 });
        } else {
            let id = extract_numeric_id(items[i].reference.as_str());
            keys.push(SortKey { major: id, text: String::new(), minor: 0 });
            assert(keys@[i as int]@ =~= id_key(items@[i as int]));
        }
        i = i + 1;
    }
    sort_by_keys(items, keys, Ghost(key))
}

/// The results of a project search: every project normalised, sorted by
/// numeric ID (or by name when asked), cut to the limit; the next-page link
/// trimmed, and absent when blank.
pub open spec fn is_project_search_result(
    dtos: Seq<DayliteProjectSummaryDto>,
    next: Option<Seq<char>>,
    sort: Option<DayliteSearchSort>,
    limit: Option<u16>,
    r: DayliteSearchResult<DayliteProjectSummary>,
) -> bool {
    &&& opt_view(r.next) == trimmed_or_none_spec(next)
    &&& exists|normalized: Seq<DayliteProjectSummary>, sorted: Seq<DayliteProjectSummary>|
        #[trigger] normalizes_all(normalized, dtos) && #[trigger] is_stable_sort_by(normalized, sorted, search_key(sort))
            && r.results@ == match limit {
            Some(l) => if (l as int) < sorted.len() {
                sorted.take(l as int)
            } else {
                sorted
            },
            None => sorted,
        }
}

/// Each summary is the normalised form of the DTO at its position.
pub open spec fn normalizes_all(normalized: Seq<DayliteProjectSummary>, dtos: Seq<DayliteProjectSummaryDto>) -> bool {
    &&& normalized.len() == dtos.len()
    &&& forall|i: int| 0 <= i < dtos.len() ==> is_normalized_summary(#[trigger] normalized[i], dtos[i])
}

fn normalize_all(dtos: Vec<DayliteProjectSummaryDto>) -> (r: Vec<DayliteProjectSummary>)
    ensures
        normalizes_all(r@, dtos@),
{
    let ghost orig = dtos@;
    let n = dtos.len();
    let mut rest = dtos;
    let mut r: Vec<DayliteProjectSummary> = Vec::new();
    let mut i: usize = 0;
    while i < n
        invariant
            n == orig.len(),
            i <= n,
            rest@ == orig.skip(i as int),
            r@.len() == i,
            forall|j: int| 0 <= j < i ==> is_normalized_summary(#[trigger] r@[j], orig[j]),
        decreases n - i,
    {
        let dto = rest.remove(0);
        assert(dto == orig[i as int]);
        r.push(normalize_project_summary(dto));
        i = i + 1;
        assert(rest@ =~= orig.skip(i as int));
    }
    r
}

fn truncate_to(v: &mut Vec<DayliteProjectSummary>, limit: usize)
    ensures
        final(v)@ == (if limit < old(v)@.len() { old(v)@.take(limit as int) } else { old(v)@ }),
{
    if limit < v.len() {
        v.truncate(limit);
    }
}

/// Turns a page of Daylite search results into what the planner shows
/// (see `is_project_search_result`).
pub fn finish_project_search(
    dtos: Vec<DayliteProjectSummaryDto>,
    next: Option<String>,
    sort: Option<DayliteSearchSort>,
    limit: Option<u16>,
) -> (r: DayliteSearchResult<DayliteProjectSummary>)
    ensures
        is_project_search_result(dtos@, opt_view(next), sort, limit, r),
{
    let ghost d = dtos@;
    let normalized = normalize_all(dtos);
    let ghost nv = normalized@;
    let mut results = sort_summaries(normalized, sort);
    let ghost sorted = results@;
    if let Some(l) = limit {
        truncate_to(&mut results, l as usize);
    }
    let r = DayliteSearchResult { results, next: trimmed_or_none(next) };
    assert(normalizes_all(nv, d));
    assert(is_stable_sort_by(nv, sorted, search_key(sort)));
    r
}

/// The overdue projects the planner shows: every candidate normalised and
/// marked with the overdue category (the search filtered on it, though Daylite
/// leaves it out of the records), sorted by numeric ID, the first five kept.
pub open spec fn is_overdue_selection(dtos: Seq<DayliteProjectSummaryDto>, r: Seq<DayliteProjectSummary>) -> bool {
    exists|normalized: Seq<DayliteProjectSummary>, marked: Seq<DayliteProjectSummary>, sorted: Seq<DayliteProjectSummary>|
        #![trigger normalizes_all(normalized, dtos), marks_overdue(marked, normalized), sorts_by_id(marked, sorted)]
        normalizes_all(normalized, dtos) && marks_overdue(marked, normalized) && sorts_by_id(marked, sorted) && r == (
        if OVERDUE_DISPLAY_LIMIT < sorted.len() {
            sorted.take(OVERDUE_DISPLAY_LIMIT as int)
        } else {
            sorted
        })
}

/// `sorted` is `items` stably sorted by numeric ID.
pub open spec fn sorts_by_id(items: Seq<DayliteProjectSummary>, sorted: Seq<DayliteProjectSummary>) -> bool {
    is_stable_sort_by(items, sorted, |p: DayliteProjectSummary| id_key(p))
}

/// Each summary is the one at its position with the overdue category.
pub open spec fn marks_overdue(marked: Seq<DayliteProjectSummary>, normalized: Seq<DayliteProjectSummary>) -> bool {
    &&& marked.len() == normalized.len()
    &&& forall|i: int|
        0 <= i < normalized.len() ==> opt_view((#[trigger] marked[i]).category) == Some(overdue_category()) && marked[i]
            == (DayliteProjectSummary { category: marked[i].category, ..normalized[i] })
}

/// Selects the overdue projects to show (see `is_overdue_selection`).
pub fn select_overdue_projects(dtos: Vec<DayliteProjectSummaryDto>) -> (r: Vec<DayliteProjectSummary>)
    ensures
        is_overdue_selection(dtos@, r@),
{
    let ghost d = dtos@;
    let normalized = normalize_all(dtos);
    let n = normalized.len();
    let mut rest = normalized;
    let ghost nv = rest@;
    let mut marked: Vec<DayliteProjectSummary> = Vec::new();
    let mut i: usize = 0;
    while i < n
        invariant
            n == nv.len(),
            normalizes_all(nv, d),
            i <= n,
            rest@ == nv.skip(i as int),
            marked@.len() == i,
            forall|j: int|
                0 <= j < i ==> opt_view((#[trigger] marked@[j]).category) == Some(overdue_category()) && marked@[j]
                    == (DayliteProjectSummary { category: marked@[j].category, ..nv[j] }),
        decreases n - i,
    {
        let p = rest.remove(0);
        assert(p == nv[i as int]);
        let m = DayliteProjectSummary { category: Some(overdue_category_text().to_owned()), ..p };
        marked.push(m);
        i = i + 1;
        assert(rest@ =~= nv.skip(i as int));
    }
    let ghost mv = marked@;
    let mut results = sort_summaries(marked, None);
    let ghost sorted = results@;
    truncate_to(&mut results, OVERDUE_DISPLAY_LIMIT);
    proof {
        assert(marks_overdue(mv, nv));
        assert(search_key(None) == (|p: DayliteProjectSummary| id_key(p)));
        assert(sorts_by_id(mv, sorted));
    }
    results
}

/// A status written by its Daylite name reads back as the same status, and
/// the six names are distinct.
pub proof fn law_status_name_reads_back(s: PlanningProjectStatus)
    ensures
        project_status_spec(Some(status_name(s))) == s,
{
    reveal_strlit("in_progress");
    reveal_strlit("done");
    reveal_strlit("abandoned");
    reveal_strlit("cancelled");
    reveal_strlit("deferred");
    reveal_strlit("new_status");
    let name = status_name(s);
    assert(is_snake_name(name));
    lemma_snake_name_is_normal(name);
}

} // verus!

