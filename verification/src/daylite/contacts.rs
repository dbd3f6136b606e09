//! Daylite contacts as planning employees: normalisation, the planning
//! categories, display order, and the calendar URLs mirrored into the settings.

use super::projects::{after_last_slash, last_segment};
use super::shared::{trimmed_or_none, trimmed_or_none_spec, DayliteApiError, DayliteApiErrorCode};
use crate::local_store::{DayliteContactCacheEntry, DayliteContactUrl, DayliteContactUrlCacheEntry, EmployeeSetting, EmployeeSettingView};
use crate::sort::{is_perm_sorted_by, is_stable_sort_by, key_le, lemma_text_le_refl, sort_by_keys, text_le, SortKey};
use crate::text::{
    ascii_lowered, is_ascii_text, is_trimmed_char, trim_end_spec, trim_start_spec, lowercased, opt_view, parse_u64, parse_u64_spec, push_char, push_str, text_eq, to_lowercase, trim, trimmed,
    u64_parse_error, u64_parse_error_text,
};
use vstd::prelude::*;
use vstd::string::StrSliceExecFns;

verus! {

/// A contact as Daylite's API sends it.
#[derive(Clone, Debug, PartialEq, Eq)]
pub struct DayliteContactSummary {
    /// The contact's API path (`self`).
    pub reference: String,
    pub first_name: String,
    pub last_name: String,
    pub full_name: Option<String>,
    pub nickname: Option<String>,
    pub category: Option<String>,
    pub urls: Vec<DayliteContactUrl>,
}

/// Sets a contact's managed calendar URLs.
#[derive(Clone, Debug, PartialEq, Eq)]
pub struct DayliteUpdateContactIcalUrlsInput {
    pub contact_reference: String,
    pub primary_ical_url: String,
    pub absence_ical_url: String,
}

/// A contact as the planning screens use it.
#[derive(Clone, Debug, PartialEq, Eq)]
pub struct PlanningContactRecord {
    pub reference: String,
    pub full_name: Option<String>,
    pub nickname: Option<String>,
    pub category: Option<String>,
    pub urls: Vec<DayliteContactUrl>,
}

/// The views of a list of URLs.
pub open spec fn urls_view(urls: Seq<DayliteContactUrl>) -> Seq<(Option<Seq<char>>, Option<Seq<char>>, Option<Seq<char>>)> {
    urls.map_values(|u: DayliteContactUrl| u@)
}

/// A trimmed field.
pub fn normalize_string(value: String) -> (r: String)
    ensures
        r@ == trimmed(value@),
{
    super::shared::trimmed(value)
}

/// A trimmed field, absent when blank.
pub fn normalize_string_option(value: Option<String>) -> (r: Option<String>)
    ensures
        opt_view(r) == trimmed_or_none_spec(opt_view(value)),
{
    trimmed_or_none(value)
}

/// First and last name, trimmed, joined by a space; blank parts are left out
/// and two blank parts give no name.
pub open spec fn joined_name(first: Seq<char>, last: Seq<char>) -> Option<Seq<char>> {
    let f = trimmed(first);
    let l = trimmed(last);
    if f.len() > 0 && l.len() > 0 {
        Some(f + seq![' '] + l)
    } else if f.len() > 0 {
        Some(f)
    } else if l.len() > 0 {
        Some(l)
    } else {
        None
    }
}

/// Joins first and last name (see `joined_name`).
pub fn join_name(first_name: &str, last_name: &str) -> (r: Option<String>)
    ensures
        opt_view(r) == joined_name(first_name@, last_name@),
{
    let f = trim(first_name);
    let l = trim(last_name);
    let fl = f.as_str().unicode_len();
    let ll = l.as_str().unicode_len();
    if fl > 0 && ll > 0 {
        let mut r = f;
        push_char(&mut r, ' ');
        push_str(&mut r, l.as_str());
        Some(r)
    } else if fl > 0 {
        Some(f)
    } else if ll > 0 {
        Some(l)
    } else {
        None
    }
}

/// A URL with its label, address and note trimmed (blank ones absent).
pub open spec fn normalized_url(u: (Option<Seq<char>>, Option<Seq<char>>, Option<Seq<char>>)) -> (
    Option<Seq<char>>,
    Option<Seq<char>>,
    Option<Seq<char>>,
) {
    (trimmed_or_none_spec(u.0), trimmed_or_none_spec(u.1), trimmed_or_none_spec(u.2))
}

/// The URLs normalised, with those left entirely blank dropped.
pub open spec fn normalized_urls(urls: Seq<(Option<Seq<char>>, Option<Seq<char>>, Option<Seq<char>>)>) -> Seq<
    (Option<Seq<char>>, Option<Seq<char>>, Option<Seq<char>>),
>
    decreases urls.len(),
{
    if urls.len() == 0 {
        Seq::empty()
    } else {
        let u = normalized_url(urls.last());
        if u.0 is None && u.1 is None && u.2 is None {
            normalized_urls(urls.drop_last())
        } else {
            normalized_urls(urls.drop_last()).push(u)
        }
    }
}

/// Normalises a contact's URLs (see `normalized_urls`).
pub fn normalize_contact_urls(urls: Vec<DayliteContactUrl>) -> (r: Vec<DayliteContactUrl>)
    ensures
        urls_view(r@) == normalized_urls(urls_view(urls@)),
{
    let ghost orig = urls@;
    let n = urls.len();
    let mut rest = urls;
    let mut r: Vec<DayliteContactUrl> = Vec::new();
    let mut i: usize = 0;
    while i < n
        invariant
            n == orig.len(),
            i <= n,
            rest@ == orig.skip(i as int),
            urls_view(r@) == normalized_urls(urls_view(orig.take(i as int))),
        decreases n - i,
    {
        let u = rest.remove(0);
        assert(u == orig[i as int]);
        proof {
            assert(urls_view(orig.take(i + 1)).drop_last() =~= urls_view(orig.take(i as int)));
            assert(urls_view(orig.take(i + 1)).last() == u@);
        }
        let normalized = DayliteContactUrl {
            label: trimmed_or_none(u.label),
            url: trimmed_or_none(u.url),
            note: trimmed_or_none(u.note),
        };
        if !(normalized.label.is_none() && normalized.url.is_none() && normalized.note.is_none()) {
            let ghost before = r@;
            r.push(normalized);
            assert(urls_view(r@) =~= urls_view(before).push(normalized@));
        }
        i = i + 1;
        assert(rest@ =~= orig.skip(i as int));
    }
    assert(orig.take(n as int) =~= orig);
    r
}

/// The planning record of a contact from Daylite: fields trimmed, the full
/// name falling back to first and last name, blank URLs dropped.
pub fn map_daylite_contact_summary(contact: DayliteContactSummary) -> (r: PlanningContactRecord)
    ensures
        r.reference@ == trimmed(contact.reference@),
        opt_view(r.full_name) == (match trimmed_or_none_spec(opt_view(contact.full_name)) {
            Some(n) => Some(n),
            None => joined_name(contact.first_name@, contact.last_name@),
        }),
        opt_view(r.nickname) == trimmed_or_none_spec(opt_view(contact.nickname)),
        opt_view(r.category) == trimmed_or_none_spec(opt_view(contact.category)),
        urls_view(r.urls@) == normalized_urls(urls_view(contact.urls@)),
{
    let full_name = match normalize_string_option(contact.full_name) {
        Some(n) => Some(n),
        None => join_name(contact.first_name.as_str(), contact.last_name.as_str()),
    };
    PlanningContactRecord {
        reference: normalize_string(contact.reference),
        full_name,
        nickname: normalize_string_option(contact.nickname),
        category: normalize_string_option(contact.category),
        urls: normalize_contact_urls(contact.urls),
    }
}

/// The planning record of a cached contact: fields trimmed, blank URLs
/// dropped, and no name made up from other fields.
pub fn map_cached_contact(contact: DayliteContactCacheEntry) -> (r: PlanningContactRecord)
    ensures
        r.reference@ == trimmed(contact.reference@),
        opt_view(r.full_name) == trimmed_or_none_spec(opt_view(contact.full_name)),
        opt_view(r.nickname) == trimmed_or_none_spec(opt_view(contact.nickname)),
        opt_view(r.category) == trimmed_or_none_spec(opt_view(contact.category)),
        urls_view(r.urls@) == normalized_urls(urls_view(contact.urls@)),
{
    PlanningContactRecord {
        reference: normalize_string(contact.reference),
        full_name: normalize_string_option(contact.full_name),
        nickname: normalize_string_option(contact.nickname),
        category: normalize_string_option(contact.category),
        urls: normalize_contact_urls(contact.urls),
    }
}

/// The cache entry of a planning contact, field for field.
pub fn map_planning_contact_to_cache_entry(contact: PlanningContactRecord) -> (r: DayliteContactCacheEntry)
    ensures
        r.reference == contact.reference,
        r.full_name == contact.full_name,
        r.nickname == contact.nickname,
        r.category == contact.category,
        r.urls == contact.urls,
{
    DayliteContactCacheEntry {
        reference: contact.reference,
        full_name: contact.full_name,
        nickname: contact.nickname,
        category: contact.category,
        urls: contact.urls,
    }
}

/// A contact takes part in planning when its trimmed, lowercased category is
/// `monteur` or `test`.
pub open spec fn is_planning_contact_spec(category: Option<Seq<char>>) -> bool {
    match trimmed_or_none_spec(category) {
        Some(c) => lowercased(c) == "monteur"@ || lowercased(c) == "test"@,
        None => false,
    }
}

/// Whether the contact takes part in planning (see `is_planning_contact_spec`).
pub fn is_planning_contact(contact: &PlanningContactRecord) -> (r: bool)
    ensures
        r == is_planning_contact_spec(opt_view(contact.category)),
{
    let category = match &contact.category {
        Some(c) => Some(c.clone()),
        None => None,
    };
    match normalize_string_option(category) {
        Some(c) => {
            let lower = to_lowercase(c.as_str());
            text_eq(lower.as_str(), "monteur") || text_eq(lower.as_str(), "test")
        },
        None => false,
    }
}

/// The planning contacts among `contacts`, in their order.
pub open spec fn planning_contacts(contacts: Seq<PlanningContactRecord>) -> Seq<PlanningContactRecord>
    decreases contacts.len(),
{
    if contacts.len() == 0 {
        Seq::empty()
    } else if is_planning_contact_spec(opt_view(contacts.last().category)) {
        planning_contacts(contacts.drop_last()).push(contacts.last())
    } else {
        planning_contacts(contacts.drop_last())
    }
}

/// Keeps the contacts of both planning categories, `Monteur` and `Test`.
pub fn filter_planning_contacts(contacts: Vec<PlanningContactRecord>) -> (r: Vec<PlanningContactRecord>)
    ensures
        r@ == planning_contacts(contacts@),
{
    let ghost orig = contacts@;
    let n = contacts.len();
    let mut rest = contacts;
    let mut r: Vec<PlanningContactRecord> = Vec::new();
    let mut i: usize = 0;
    while i < n
        invariant
            n == orig.len(),
            i <= n,
            rest@ == orig.skip(i as int),
            r@ == planning_contacts(orig.take(i as int)),
        decreases n - i,
    {
        let c = rest.remove(0);
        assert(c == orig[i as int]);
        proof {
            assert(orig.take(i + 1).drop_last() =~= orig.take(i as int));
            assert(orig.take(i + 1).last() == c);
        }
        if is_planning_contact(&c) {
            r.push(c);
        }
        i = i + 1;
        assert(rest@ =~= orig.skip(i as int));
    }
    assert(orig.take(n as int) =~= orig);
    r
}

/// A field trimmed, absent when blank: the normalisation of every optional
/// contact field (see `trimmed_or_none_spec`).
pub fn normalize_optional_string(value: Option<String>) -> (r: Option<String>)
    ensures
        opt_view(r) == trimmed_or_none_spec(opt_view(value)),
{
    normalize_string_option(value)
}

/// The fields of a URL as older stores cached it.
pub open spec fn cached_urls_view(urls: Seq<DayliteContactUrlCacheEntry>) -> Seq<
    (Option<Seq<char>>, Option<Seq<char>>, Option<Seq<char>>),
> {
    urls.map_values(|u: DayliteContactUrlCacheEntry| (opt_view(u.label), opt_view(u.url), opt_view(u.note)))
}

/// The URLs of a cached contact, normalised as those of a fetched one (see
/// `normalized_urls`).
pub fn normalize_cached_contact_urls(urls: Vec<DayliteContactUrlCacheEntry>) -> (r: Vec<DayliteContactUrl>)
    ensures
        urls_view(r@) == normalized_urls(cached_urls_view(urls@)),
{
    let ghost orig = urls@;
    let n = urls.len();
    let mut rest = urls;
    let mut converted: Vec<DayliteContactUrl> = Vec::new();
    let mut i: usize = 0;
    while i < n
        invariant
            n == orig.len(),
            i <= n,
            rest@ == orig.skip(i as int),
            urls_view(converted@) == cached_urls_view(orig.take(i as int)),
        decreases n - i,
    {
        let u = rest.remove(0);
        assert(u == orig[i as int]);
        let c = DayliteContactUrl { label: u.label, url: u.url, note: u.note };
        let ghost before = converted@;
        converted.push(c);
        assert(urls_view(converted@) =~= urls_view(before).push(c@));
        assert(cached_urls_view(orig.take(i + 1)) =~= cached_urls_view(orig.take(i as int)).push(c@));
        i = i + 1;
        assert(rest@ =~= orig.skip(i as int));
    }
    assert(orig.take(n as int) =~= orig);
    normalize_contact_urls(converted)
}

/// A fitter: the trimmed, lowercased category is `monteur`.
pub open spec fn is_monteur_spec(category: Option<Seq<char>>) -> bool {
    match trimmed_or_none_spec(category) {
        Some(c) => lowercased(c) == "monteur"@,
        None => false,
    }
}

/// Whether the contact is a fitter (see `is_monteur_spec`).
pub fn is_monteur_contact(contact: &PlanningContactRecord) -> (r: bool)
    ensures
        r == is_monteur_spec(opt_view(contact.category)),
{
    let category = match &contact.category {
        Some(c) => Some(c.clone()),
        None => None,
    };
    match normalize_optional_string(category) {
        Some(c) => {
            let lower = to_lowercase(c.as_str());
            text_eq(lower.as_str(), "monteur")
        },
        None => false,
    }
}

/// The fitters among `contacts`, in their order.
pub open spec fn monteur_contacts(contacts: Seq<PlanningContactRecord>) -> Seq<PlanningContactRecord>
    decreases contacts.len(),
{
    if contacts.len() == 0 {
        Seq::empty()
    } else if is_monteur_spec(opt_view(contacts.last().category)) {
        monteur_contacts(contacts.drop_last()).push(contacts.last())
    } else {
        monteur_contacts(contacts.drop_last())
    }
}

/// Keeps the fitters, the contacts of category `Monteur` only.
pub fn filter_monteur_contacts(contacts: Vec<PlanningContactRecord>) -> (r: Vec<PlanningContactRecord>)
    ensures
        r@ == monteur_contacts(contacts@),
{
    let ghost orig = contacts@;
    let n = contacts.len();
    let mut rest = contacts;
    let mut r: Vec<PlanningContactRecord> = Vec::new();
    let mut i: usize = 0;
    while i < n
        invariant
            n == orig.len(),
            i <= n,
            rest@ == orig.skip(i as int),
            r@ == monteur_contacts(orig.take(i as int)),
        decreases n - i,
    {
        let c = rest.remove(0);
        assert(c == orig[i as int]);
        proof {
            assert(orig.take(i + 1).drop_last() =~= orig.take(i as int));
            assert(orig.take(i + 1).last() == c);
        }
        if is_monteur_contact(&c) {
            r.push(c);
        }
        i = i + 1;
        assert(rest@ =~= orig.skip(i as int));
    }
    assert(orig.take(n as int) =~= orig);
    r
}

/// The name a contact is shown by: its nickname, else its full name (both
/// trimmed), else `Unbenannter Kontakt`.
pub open spec fn display_name(nickname: Option<Seq<char>>, full_name: Option<Seq<char>>) -> Seq<char> {
    match trimmed_or_none_spec(nickname) {
        Some(n) => n,
        None => match trimmed_or_none_spec(full_name) {
            Some(f) => f,
            None => "Unbenannter Kontakt"@,
        },
    }
}

fn copy_opt(o: &Option<String>) -> (r: Option<String>)
    ensures
        r == *o,
{
    match o {
        Some(s) => Some(s.clone()),
        None => None,
    }
}

/// The name the contact is shown by (see `display_name`).
pub fn contact_display_name(contact: &PlanningContactRecord) -> (r: String)
    ensures
        r@ == display_name(opt_view(contact.nickname), opt_view(contact.full_name)),
{
    if let Some(nickname) = normalize_string_option(copy_opt(&contact.nickname)) {
        return nickname;
    }
    if let Some(full_name) = normalize_string_option(copy_opt(&contact.full_name)) {
        return full_name;
    }
    "Unbenannter Kontakt".to_owned()
}

/// The display order key of a contact: its lowercased display name.
pub open spec fn contact_key(c: PlanningContactRecord) -> (u64, Seq<char>, u64) {
    (0u64, lowercased(display_name(opt_view(c.nickname), opt_view(c.full_name))), 0u64)
}

/// Sorts contacts stably by lowercased display name.
pub fn sort_contacts(contacts: Vec<PlanningContactRecord>) -> (r: Vec<PlanningContactRecord>)
    ensures
        is_stable_sort_by(contacts@, r@, |c: PlanningContactRecord| contact_key(c)),
{
    let ghost key = |c: PlanningContactRecord| contact_key(c);
    let mut keys: Vec<SortKey> = Vec::new();
    let mut i: usize = 0;
    while i < contacts.len()
        invariant
            i <= contacts@.len(),
            key == (|c: PlanningContactRecord| contact_key(c)),
            keys@.len() == i,
            forall|j: int| 0 <= j < i ==> #[trigger] keys@[j]@ == key(contacts@[j]),
        decreases contacts@.len() - i,
    {
        let name = contact_display_name(&contacts[i]);
        let lower = to_lowercase(name.as_str());
        keys.push(SortKey { major: 0, text: lower, minor: 0 });
        i = i + 1;
    }
    sort_by_keys(contacts, keys, Ghost(key))
}

/// The label of the managed primary calendar URL.
pub open spec fn primary_label() -> Seq<char> {
    "Einsatz iCal"@
}

/// The label of the managed absence calendar URL.
pub open spec fn absence_label() -> Seq<char> {
    "Abwesenheit iCal"@
}

/// A label trimmed and lowercased, absent when blank.
pub open spec fn normalized_label(label: Option<Seq<char>>) -> Option<Seq<char>> {
    match label {
        Some(l) => if trimmed(l).len() == 0 {
            None
        } else {
            Some(lowercased(trimmed(l)))
        },
        None => None,
    }
}

/// Normalises a URL label (see `normalized_label`).
pub fn normalize_url_label(value: Option<&str>) -> (r: Option<String>)
    ensures
        opt_view(r) == normalized_label(match value {
            Some(v) => Some(v@),
            None => None,
        }),
{
    match value {
        Some(v) => {
            let t = trim(v);
            if t.as_str().unicode_len() == 0 {
                None
            } else {
                Some(to_lowercase(t.as_str()))
            }
        },
        None => None,
    }
}

/// Whether a normalised label names the primary calendar.
pub fn is_primary_ical_label(label: &str) -> (r: bool)
    ensures
        r == (label@ == "einsatz ical"@),
{
    text_eq(label, "einsatz ical")
}

/// Whether a normalised label names the absence calendar.
pub fn is_absence_ical_label(label: &str) -> (r: bool)
    ensures
        r == (label@ == "abwesenheit ical"@),
{
    text_eq(label, "abwesenheit ical")
}

/// The trimmed text, absent when blank.
pub fn normalize_non_empty(value: &str) -> (r: Option<String>)
    ensures
        opt_view(r) == (if trimmed(value@).len() == 0 {
            None
        } else {
            Some(trimmed(value@))
        }),
{
    let t = trim(value);
    if t.as_str().unicode_len() == 0 {
        None
    } else {
        Some(t)
    }
}

/// Whether a URL carries one of the two managed labels.
pub open spec fn is_managed(u: (Option<Seq<char>>, Option<Seq<char>>, Option<Seq<char>>)) -> bool {
    normalized_label(u.0) == Some("einsatz ical"@) || normalized_label(u.0) == Some("abwesenheit ical"@)
}

/// The URLs without the managed ones, in their order.
pub open spec fn unmanaged_urls(urls: Seq<(Option<Seq<char>>, Option<Seq<char>>, Option<Seq<char>>)>) -> Seq<
    (Option<Seq<char>>, Option<Seq<char>>, Option<Seq<char>>),
>
    decreases urls.len(),
{
    if urls.len() == 0 {
        Seq::empty()
    } else if is_managed(urls.last()) {
        unmanaged_urls(urls.drop_last())
    } else {
        unmanaged_urls(urls.drop_last()).push(urls.last())
    }
}

/// The managed entry for a calendar URL, if the URL is not blank.
pub open spec fn managed_entry(label: Seq<char>, url: Seq<char>) -> Seq<(Option<Seq<char>>, Option<Seq<char>>, Option<Seq<char>>)> {
    if trimmed(url).len() == 0 {
        Seq::empty()
    } else {
        seq![(Some(label), Some(trimmed(url)), None)]
    }
}

/// A contact's URLs with the calendar URLs replaced: every URL without a
/// managed label is kept in order, then the primary and absence URLs follow
/// under their managed labels, each only when not blank.
pub open spec fn merged_urls(
    existing: Seq<(Option<Seq<char>>, Option<Seq<char>>, Option<Seq<char>>)>,
    primary: Seq<char>,
    absence: Seq<char>,
) -> Seq<(Option<Seq<char>>, Option<Seq<char>>, Option<Seq<char>>)> {
    unmanaged_urls(existing) + managed_entry(primary_label(), primary) + managed_entry(absence_label(), absence)
}

/// Replaces the managed calendar URLs of a contact (see `merged_urls`).
pub fn merge_contact_ical_urls(existing_urls: Vec<DayliteContactUrl>, primary_ical_url: &str, absence_ical_url: &str) -> (r: Vec<
    DayliteContactUrl,
>)
    ensures
        urls_view(r@) == merged_urls(urls_view(existing_urls@), primary_ical_url@, absence_ical_url@),
{
    let ghost orig = existing_urls@;
    let n = existing_urls.len();
    let mut rest = existing_urls;
    let mut merged: Vec<DayliteContactUrl> = Vec::new();
    let mut i: usize = 0;
    while i < n
        invariant
            n == orig.len(),
            i <= n,
            rest@ == orig.skip(i as int),
            urls_view(merged@) == unmanaged_urls(urls_view(orig.take(i as int))),
        decreases n - i,
    {
        let u = rest.remove(0);
        assert(u == orig[i as int]);
        proof {
            assert(urls_view(orig.take(i + 1)).drop_last() =~= urls_view(orig.take(i as int)));
            assert(urls_view(orig.take(i + 1)).last() == u@);
        }
        let label = match &u.label {
            Some(l) => normalize_url_label(Some(l.as_str())),
            None => None,
        };
        let managed = match &label {
            Some(l) => is_primary_ical_label(l.as_str()) || is_absence_ical_label(l.as_str()),
            None => false,
        };
        if !managed {
            let ghost before = merged@;
            merged.push(u);
            assert(urls_view(merged@) =~= urls_view(before).push(orig[i as int]@));
        }
        i = i + 1;
        assert(rest@ =~= orig.skip(i as int));
    }
    assert(orig.take(n as int) =~= orig);
    let ghost base = urls_view(merged@);
    if let Some(primary) = normalize_non_empty(primary_ical_url) {
        merged.push(DayliteContactUrl { label: Some("Einsatz iCal".to_owned()), url: Some(primary), note: None });
    }
    let ghost with_primary = urls_view(merged@);
    assert(with_primary =~= base + managed_entry(primary_label(), primary_ical_url@));
    if let Some(absence) = normalize_non_empty(absence_ical_url) {
        merged.push(DayliteContactUrl { label: Some("Abwesenheit iCal".to_owned()), url: Some(absence), note: None });
    }
    assert(urls_view(merged@) =~= with_primary + managed_entry(absence_label(), absence_ical_url@));
    merged
}

/// One of the two managed calendars.
#[derive(Clone, Copy, Debug, PartialEq, Eq, Structural)]
pub enum ManagedCalendar {
    Primary,
    Absence,
}

/// The normalised label of a managed calendar.
pub open spec fn managed_label_key(which: ManagedCalendar) -> Seq<char> {
    match which {
        ManagedCalendar::Primary => "einsatz ical"@,
        ManagedCalendar::Absence => "abwesenheit ical"@,
    }
}

/// The URL of the first entry labelled for the calendar whose address is not
/// blank, trimmed.
pub open spec fn managed_url(urls: Seq<(Option<Seq<char>>, Option<Seq<char>>, Option<Seq<char>>)>, which: ManagedCalendar) -> Option<
    Seq<char>,
>
    decreases urls.len(),
{
    if urls.len() == 0 {
        None
    } else {
        let u = urls[0];
        let found = if normalized_label(u.0) == Some(managed_label_key(which)) {
            match u.1 {
                Some(a) => if trimmed(a).len() == 0 {
                    None
                } else {
                    Some(trimmed(a))
                },
                None => None,
            }
        } else {
            None
        };
        match found {
            Some(x) => Some(x),
            None => managed_url(urls.drop_first(), which),
        }
    }
}

/// The managed URL of a calendar among a contact's URLs (see `managed_url`).
pub fn extract_managed_ical_url(urls: &Vec<DayliteContactUrl>, which: ManagedCalendar) -> (r: Option<String>)
    ensures
        opt_view(r) == managed_url(urls_view(urls@), which),
{
    let n = urls.len();
    let mut i: usize = 0;
    assert(urls_view(urls@).skip(0) =~= urls_view(urls@));
    while i < n
        invariant
            n == urls@.len(),
            i <= n,
            managed_url(urls_view(urls@), which) == managed_url(urls_view(urls@).skip(i as int), which),
        decreases n - i,
    {
        let ghost tail = urls_view(urls@).skip(i as int);
        proof {
            assert(tail[0] == urls@[i as int]@);
            assert(tail.drop_first() =~= urls_view(urls@).skip(i + 1));
        }
        let label = match &urls[i].label {
            Some(l) => normalize_url_label(Some(l.as_str())),
            None => None,
        };
        let matches = match &label {
            Some(l) => match which {
                ManagedCalendar::Primary => is_primary_ical_label(l.as_str()),
                ManagedCalendar::Absence => is_absence_ical_label(l.as_str()),
            },
            None => false,
        };
        if matches {
            if let Some(a) = &urls[i].url {
                if let Some(t) = normalize_non_empty(a.as_str()) {
                    return Some(t);
                }
            }
        }
        i = i + 1;
    }
    assert(urls_view(urls@).skip(n as int) =~= Seq::empty());
    None
}

/// The first setting for `reference`, if any.
pub open spec fn first_setting_index(settings: Seq<EmployeeSettingView>, reference: Seq<char>) -> Option<nat>
    decreases settings.len(),
{
    if settings.len() == 0 {
        None
    } else if settings[0].reference == reference {
        Some(0)
    } else {
        match first_setting_index(settings.drop_first(), reference) {
            Some(i) => Some(i + 1),
            None => None,
        }
    }
}

/// A setting with the contact's calendar URLs: a URL that changed replaces
/// the old one and clears its connection-test result; an unchanged one keeps it.
pub open spec fn with_calendars(s: EmployeeSettingView, primary: Option<Seq<char>>, absence: Option<Seq<char>>) -> EmployeeSettingView {
    let s1 = if s.primary != primary {
        EmployeeSettingView { primary, primary_tested_at: None, primary_passed: None, ..s }
    } else {
        s
    };
    if s1.absence != absence {
        EmployeeSettingView { absence, absence_tested_at: None, absence_passed: None, ..s1 }
    } else {
        s1
    }
}

/// The settings after mirroring one contact: its first setting takes the
/// contact's calendars; without one, a new setting is added when the contact
/// has a calendar at all.
pub open spec fn reconciled_with(settings: Seq<EmployeeSettingView>, reference: Seq<char>, primary: Option<Seq<char>>, absence: Option<Seq<char>>) -> Seq<
    EmployeeSettingView,
> {
    match first_setting_index(settings, reference) {
        Some(i) => settings.update(i as int, with_calendars(settings[i as int], primary, absence)),
        None => if primary is Some || absence is Some {
            settings.push(
                EmployeeSettingView {
                    reference,
                    primary,
                    absence,
                    primary_tested_at: None,
                    primary_passed: None,
                    absence_tested_at: None,
                    absence_passed: None,
                },
            )
        } else {
            settings
        },
    }
}

/// The settings after mirroring the contacts in order.
pub open spec fn reconciled(settings: Seq<EmployeeSettingView>, contacts: Seq<PlanningContactRecord>) -> Seq<EmployeeSettingView>
    decreases contacts.len(),
{
    if contacts.len() == 0 {
        settings
    } else {
        let c = contacts.last();
        reconciled_with(
            reconciled(settings, contacts.drop_last()),
            c.reference@,
            managed_url(urls_view(c.urls@), ManagedCalendar::Primary),
            managed_url(urls_view(c.urls@), ManagedCalendar::Absence),
        )
    }
}

/// The views of a list of settings.
pub open spec fn settings_view(settings: Seq<EmployeeSetting>) -> Seq<EmployeeSettingView> {
    settings.map_values(|s: EmployeeSetting| s@)
}

fn find_setting(settings: &Vec<EmployeeSetting>, reference: &str) -> (r: Option<usize>)
    ensures
        match r {
            Some(i) => first_setting_index(settings_view(settings@), reference@) == Some(i as nat) && i < settings@.len(),
            None => first_setting_index(settings_view(settings@), reference@) is None,
        },
{
    let n = settings.len();
    let mut i: usize = 0;
    assert(settings_view(settings@).skip(0) =~= settings_view(settings@));
    while i < n
        invariant
            n == settings@.len(),
            i <= n,
            first_setting_index(settings_view(settings@), reference@) == match first_setting_index(
                settings_view(settings@).skip(i as int),
                reference@,
            ) {
                Some(k) => Some((k + i) as nat),
                None => None,
            },
        decreases n - i,
    {
        let ghost tail = settings_view(settings@).skip(i as int);
        proof {
            assert(tail[0] == settings@[i as int]@);
            assert(tail.drop_first() =~= settings_view(settings@).skip(i + 1));
        }
        if text_eq(settings[i].daylite_contact_reference.as_str(), reference) {
            return Some(i);
        }
        i = i + 1;
    }
    assert(settings_view(settings@).skip(n as int) =~= Seq::empty());
    None
}

fn opt_text_eq(a: &Option<String>, b: &Option<String>) -> (r: bool)
    ensures
        r == (opt_view(*a) == opt_view(*b)),
{
    match (a, b) {
        (Some(x), Some(y)) => text_eq(x.as_str(), y.as_str()),
        (None, None) => true,
        _ => false,
    }
}

/// Daylite is the source of truth for calendar configuration: each contact's
/// managed calendar URLs are mirrored into the employee settings (see
/// `reconciled`), so a calendar set up on one device reaches every other.
pub fn reconcile_employee_calendars_from_contacts(settings: &mut Vec<EmployeeSetting>, contacts: &Vec<PlanningContactRecord>)
    ensures
        settings_view(final(settings)@) == reconciled(settings_view(old(settings)@), contacts@),
{
    let ghost start = settings_view(settings@);
    let n = contacts.len();
    let mut k: usize = 0;
    while k < n
        invariant
            n == contacts@.len(),
            k <= n,
            settings_view(settings@) == reconciled(start, contacts@.take(k as int)),
        decreases n - k,
    {
        proof {
            assert(contacts@.take(k + 1).drop_last() =~= contacts@.take(k as int));
            assert(contacts@.take(k + 1).last() == contacts@[k as int]);
        }
        let c = &contacts[k];
        let primary = extract_managed_ical_url(&c.urls, ManagedCalendar::Primary);
        let absence = extract_managed_ical_url(&c.urls, ManagedCalendar::Absence);
        let ghost before = settings_view(settings@);
        match find_setting(settings, c.reference.as_str()) {
            Some(i) => {
                let mut s = settings.remove(i);
                let ghost s_old = s@;
                if !opt_text_eq(&s.zep_primary_calendar, &primary) {
                    s.zep_primary_calendar = copy_opt(&primary);
                    s.primary_ical_last_tested_at = None;
                    s.primary_ical_last_test_passed = None;
                }
                if !opt_text_eq(&s.zep_absence_calendar, &absence) {
                    s.zep_absence_calendar = copy_opt(&absence);
                    s.absence_ical_last_tested_at = None;
                    s.absence_ical_last_test_passed = None;
                }
                assert(s@ == with_calendars(s_old, opt_view(primary), opt_view(absence)));
                settings.insert(i, s);
                assert(settings_view(settings@) =~= before.update(i as int, with_calendars(before[i as int], opt_view(primary), opt_view(absence))));
            },
            None => {
                if primary.is_some() || absence.is_some() {
                    settings.push(
                        EmployeeSetting {
                            daylite_contact_reference: c.reference.clone(),
                            zep_primary_calendar: primary,
                            zep_absence_calendar: absence,
                            primary_ical_last_tested_at: None,
                            primary_ical_last_test_passed: None,
                            absence_ical_last_tested_at: None,
                            absence_ical_last_test_passed: None,
                        },
                    );
                    assert(settings_view(settings@) =~= before.push(settings@.last()@));
                }
            },
        }
        k = k + 1;
    }
    assert(contacts@.take(n as int) =~= contacts@);
}

proof fn lemma_first_setting_after_push(settings: Seq<EmployeeSettingView>, s: EmployeeSettingView)
    requires
        first_setting_index(settings, s.reference) is None,
    ensures
        first_setting_index(settings.push(s), s.reference) == Some(settings.len()),
    decreases settings.len(),
{
    if settings.len() > 0 {
        lemma_first_setting_after_push(settings.drop_first(), s);
        assert(settings.push(s).drop_first() =~= settings.drop_first().push(s));
    }
}

proof fn lemma_first_setting_after_update(settings: Seq<EmployeeSettingView>, i: int, s: EmployeeSettingView, reference: Seq<char>)
    requires
        first_setting_index(settings, reference) == Some(i as nat),
        0 <= i < settings.len(),
        s.reference == reference,
    ensures
        first_setting_index(settings.update(i, s), reference) == Some(i as nat),
    decreases settings.len(),
{
    if i > 0 {
        lemma_first_setting_after_update(settings.drop_first(), i - 1, s, reference);
        assert(settings.update(i, s).drop_first() =~= settings.drop_first().update(i - 1, s));
    }
}

proof fn lemma_first_setting_found(settings: Seq<EmployeeSettingView>, reference: Seq<char>)
    ensures
        first_setting_index(settings, reference) matches Some(i) ==> i < settings.len() && settings[i as int].reference
            == reference,
    decreases settings.len(),
{
    if settings.len() > 0 && settings[0].reference != reference {
        lemma_first_setting_found(settings.drop_first(), reference);
    }
}

/// Mirroring a contact a second time changes nothing: its setting already
/// carries its calendars, and their connection-test results stay.
pub proof fn law_reconciling_a_contact_twice_is_reconciling_it_once(
    settings: Seq<EmployeeSettingView>,
    reference: Seq<char>,
    primary: Option<Seq<char>>,
    absence: Option<Seq<char>>,
)
    ensures
        reconciled_with(reconciled_with(settings, reference, primary, absence), reference, primary, absence)
            == reconciled_with(settings, reference, primary, absence),
{
    lemma_first_setting_found(settings, reference);
    let once = reconciled_with(settings, reference, primary, absence);
    match first_setting_index(settings, reference) {
        Some(i) => {
            let s = with_calendars(settings[i as int], primary, absence);
            lemma_first_setting_after_update(settings, i as int, s, reference);
            assert(once[i as int] == s);
            assert(with_calendars(s, primary, absence) == s);
            assert(once.update(i as int, s) =~= once);
        },
        None => {
            if primary is Some || absence is Some {
                let s = EmployeeSettingView {
                    reference,
                    primary,
                    absence,
                    primary_tested_at: None,
                    primary_passed: None,
                    absence_tested_at: None,
                    absence_passed: None,
                };
                lemma_first_setting_after_push(settings, s);
                assert(once[settings.len() as int] == s);
                assert(with_calendars(s, primary, absence) == s);
                assert(once.update(settings.len() as int, s) =~= once);
            }
        },
    }
}

/// A normalised field: absent, or trimmed text that is not empty.
pub open spec fn is_normal_field(f: Option<Seq<char>>) -> bool {
    f matches Some(t) ==> t.len() > 0 && trimmed(t) == t
}

/// A normalised URL entry: every field normalised, not all of them absent.
pub open spec fn is_normal_url(u: (Option<Seq<char>>, Option<Seq<char>>, Option<Seq<char>>)) -> bool {
    &&& is_normal_field(u.0)
    &&& is_normal_field(u.1)
    &&& is_normal_field(u.2)
    &&& !(u.0 is None && u.1 is None && u.2 is None)
}

/// A contact as the planner's mappings leave it: trimmed reference, normalised
/// names and category, and only normalised URL entries.
pub open spec fn is_normalized_contact(c: PlanningContactRecord) -> bool {
    &&& trimmed(c.reference@) == c.reference@
    &&& is_normal_field(opt_view(c.full_name))
    &&& is_normal_field(opt_view(c.nickname))
    &&& is_normal_field(opt_view(c.category))
    &&& forall|i: int| 0 <= i < c.urls@.len() ==> is_normal_url(#[trigger] urls_view(c.urls@)[i])
}

proof fn lemma_normal_field_stays(f: Option<Seq<char>>)
    requires
        is_normal_field(f),
    ensures
        trimmed_or_none_spec(f) == f,
{
}

proof fn lemma_normal_urls_stay(us: Seq<(Option<Seq<char>>, Option<Seq<char>>, Option<Seq<char>>)>)
    requires
        forall|i: int| 0 <= i < us.len() ==> is_normal_url(#[trigger] us[i]),
    ensures
        normalized_urls(us) == us,
    decreases us.len(),
{
    if us.len() > 0 {
        let init = us.drop_last();
        assert forall|i: int| 0 <= i < init.len() implies is_normal_url(#[trigger] init[i]) by {
            assert(init[i] == us[i]);
        }
        lemma_normal_urls_stay(init);
        let u = us.last();
        assert(is_normal_url(us[us.len() - 1]));
        lemma_normal_field_stays(u.0);
        lemma_normal_field_stays(u.1);
        lemma_normal_field_stays(u.2);
        assert(normalized_url(u) == u);
        assert(init.push(u) =~= us);
    }
}

/// A normalised contact written to the cache and read back is the same
/// contact: the cache entry copies every field, and reading it back trims and
/// normalises, which leaves a normalised contact as it is.
pub proof fn law_a_cached_contact_reads_back_unchanged(c: PlanningContactRecord)
    requires
        is_normalized_contact(c),
    ensures
        trimmed(c.reference@) == c.reference@,
        trimmed_or_none_spec(opt_view(c.full_name)) == opt_view(c.full_name),
        trimmed_or_none_spec(opt_view(c.nickname)) == opt_view(c.nickname),
        trimmed_or_none_spec(opt_view(c.category)) == opt_view(c.category),
        normalized_urls(urls_view(c.urls@)) == urls_view(c.urls@),
{
    lemma_normal_field_stays(opt_view(c.full_name));
    lemma_normal_field_stays(opt_view(c.nickname));
    lemma_normal_field_stays(opt_view(c.category));
    let us = urls_view(c.urls@);
    assert forall|i: int| 0 <= i < us.len() implies is_normal_url(#[trigger] us[i]) by {
        assert(is_normal_url(urls_view(c.urls@)[i]));
    }
    lemma_normal_urls_stay(us);
}

/// The managed calendars a reconciled contact leaves in its setting are the
/// contact's own.
pub proof fn law_reconciled_setting_carries_the_contact_calendars(
    settings: Seq<EmployeeSettingView>,
    reference: Seq<char>,
    primary: Option<Seq<char>>,
    absence: Option<Seq<char>>,
)
    ensures
        match first_setting_index(reconciled_with(settings, reference, primary, absence), reference) {
            Some(i) => reconciled_with(settings, reference, primary, absence)[i as int].primary == primary
                && reconciled_with(settings, reference, primary, absence)[i as int].absence == absence,
            None => primary is None && absence is None,
        },
{
    lemma_first_setting_found(settings, reference);
    match first_setting_index(settings, reference) {
        Some(i) => {
            let s = with_calendars(settings[i as int], primary, absence);
            lemma_first_setting_after_update(settings, i as int, s, reference);
        },
        None => {
            if primary is Some || absence is Some {
                let s = EmployeeSettingView {
                    reference,
                    primary,
                    absence,
                    primary_tested_at: None,
                    primary_passed: None,
                    absence_tested_at: None,
                    absence_passed: None,
                };
                lemma_first_setting_after_push(settings, s);
            }
        },
    }
}


/// The log message of a contact reference without a numeric ID.
pub open spec fn invalid_contact_log(reference: Seq<char>) -> Seq<char> {
    "Ungültige Kontaktreferenz `"@ + trimmed(reference) + "`: "@ + u64_parse_error_text(after_last_slash(trimmed(reference)))
}

/// The numeric ID at the end of a contact reference (after trimming); a
/// reference without one is an invalid-response error.
pub fn parse_contact_id(contact_reference: &str) -> (r: Result<u64, DayliteApiError>)
    ensures
        match parse_u64_spec(after_last_slash(trimmed(contact_reference@))) {
            Some(n) => r matches Ok(m) && m == n,
            None => r matches Err(e) && e.code == DayliteApiErrorCode::InvalidResponse && e.http_status is None
                && e.user_message@ == "Die Daylite-Kontaktreferenz ist ungültig."@ && e.technical_message@
                == invalid_contact_log(contact_reference@),
        },
{
    let trimmed_reference = trim(contact_reference);
    let raw = last_segment(trimmed_reference.as_str());
    match parse_u64(raw.as_str()) {
        Some(n) => Ok(n),
        None => {
            let mut technical = "Ungültige Kontaktreferenz `".to_owned();
            push_str(&mut technical, trimmed_reference.as_str());
            push_str(&mut technical, "`: ");
            let detail = u64_parse_error(raw.as_str());
            push_str(&mut technical, detail.as_str());
            assert(technical@ =~= invalid_contact_log(contact_reference@));
            Err(
                DayliteApiError::new(
                    DayliteApiErrorCode::InvalidResponse,
                    None,
                    "Die Daylite-Kontaktreferenz ist ungültig.".to_owned(),
                    technical,
                ),
            )
        },
    }
}


/// The API path of a contact by ID: `/contacts/<id>`.
pub fn contact_path(contact_id: u64) -> (r: String)
    ensures
        r@ == "/contacts/"@ + crate::text::decimal(contact_id as nat),
{
    let mut p = "/contacts/".to_owned();
    let digits = crate::text::u64_to_text(contact_id);
    push_str(&mut p, digits.as_str());
    p
}

/// The planning contacts of a Daylite search: mapped, kept when they plan,
/// sorted by display name.
pub open spec fn is_contact_listing(results: Seq<DayliteContactSummary>, r: Seq<PlanningContactRecord>) -> bool {
    exists|mapped: Seq<PlanningContactRecord>|
        #[trigger] maps_all_summaries(results, mapped) && is_stable_sort_by(
            planning_contacts(mapped),
            r,
            |c: PlanningContactRecord| contact_key(c),
        )
}

/// Each record maps the summary at its position.
pub open spec fn maps_all_summaries(results: Seq<DayliteContactSummary>, mapped: Seq<PlanningContactRecord>) -> bool {
    &&& mapped.len() == results.len()
    &&& forall|i: int| 0 <= i < results.len() ==> #[trigger] maps_summary(results[i], mapped[i])
}

/// The record is the planning record of the summary.
pub open spec fn maps_summary(c: DayliteContactSummary, r: PlanningContactRecord) -> bool {
    &&& r.reference@ == trimmed(c.reference@)
    &&& opt_view(r.full_name) == (match trimmed_or_none_spec(opt_view(c.full_name)) {
        Some(n) => Some(n),
        None => joined_name(c.first_name@, c.last_name@),
    })
    &&& opt_view(r.nickname) == trimmed_or_none_spec(opt_view(c.nickname))
    &&& opt_view(r.category) == trimmed_or_none_spec(opt_view(c.category))
    &&& urls_view(r.urls@) == normalized_urls(urls_view(c.urls@))
}

/// The planning contacts of a Daylite contact search (see `is_contact_listing`).
pub fn planning_contacts_from_search(results: Vec<DayliteContactSummary>) -> (r: Vec<PlanningContactRecord>)
    ensures
        is_contact_listing(results@, r@),
{
    let ghost orig = results@;
    let n = results.len();
    let mut rest = results;
    let mut mapped: Vec<PlanningContactRecord> = Vec::new();
    let mut i: usize = 0;
    while i < n
        invariant
            n == orig.len(),
            i <= n,
            rest@ == orig.skip(i as int),
            mapped@.len() == i,
            forall|k: int| 0 <= k < i ==> #[trigger] maps_summary(orig[k], mapped@[k]),
        decreases n - i,
    {
        let c = rest.remove(0);
        assert(c == orig[i as int]);
        mapped.push(map_daylite_contact_summary(c));
        i = i + 1;
        assert(rest@ =~= orig.skip(i as int));
    }
    let ghost mv = mapped@;
    let r = sort_contacts(filter_planning_contacts(mapped));
    assert(maps_all_summaries(orig, mv));
    r
}

/// The record is the planning record of the cached contact.
pub open spec fn maps_cached(c: DayliteContactCacheEntry, r: PlanningContactRecord) -> bool {
    &&& r.reference@ == trimmed(c.reference@)
    &&& opt_view(r.full_name) == trimmed_or_none_spec(opt_view(c.full_name))
    &&& opt_view(r.nickname) == trimmed_or_none_spec(opt_view(c.nickname))
    &&& opt_view(r.category) == trimmed_or_none_spec(opt_view(c.category))
    &&& urls_view(r.urls@) == normalized_urls(urls_view(c.urls@))
}

/// Each record maps the cached contact at its position.
pub open spec fn maps_all_cached(entries: Seq<DayliteContactCacheEntry>, mapped: Seq<PlanningContactRecord>) -> bool {
    &&& mapped.len() == entries.len()
    &&& forall|i: int| 0 <= i < entries.len() ==> #[trigger] maps_cached(entries[i], mapped[i])
}

fn map_all_cached(entries: Vec<DayliteContactCacheEntry>) -> (r: Vec<PlanningContactRecord>)
    ensures
        maps_all_cached(entries@, r@),
{
    let ghost orig = entries@;
    let n = entries.len();
    let mut rest = entries;
    let mut mapped: Vec<PlanningContactRecord> = Vec::new();
    let mut i: usize = 0;
    while i < n
        invariant
            n == orig.len(),
            i <= n,
            rest@ == orig.skip(i as int),
            mapped@.len() == i,
            forall|k: int| 0 <= k < i ==> #[trigger] maps_cached(orig[k], mapped@[k]),
        decreases n - i,
    {
        let c = rest.remove(0);
        assert(c == orig[i as int]);
        mapped.push(map_cached_contact(c));
        i = i + 1;
        assert(rest@ =~= orig.skip(i as int));
    }
    mapped
}

/// The cached planning contacts as the planning screens list them: mapped,
/// kept when they plan, sorted by display name.
pub fn cached_planning_contacts(entries: Vec<DayliteContactCacheEntry>) -> (r: Vec<PlanningContactRecord>)
    ensures
        exists|mapped: Seq<PlanningContactRecord>|
            #[trigger] maps_all_cached(entries@, mapped) && is_stable_sort_by(
                planning_contacts(mapped),
                r@,
                |c: PlanningContactRecord| contact_key(c),
            ),
{
    let ghost e = entries@;
    let mapped = map_all_cached(entries);
    let ghost mv = mapped@;
    let r = sort_contacts(filter_planning_contacts(mapped));
    assert(maps_all_cached(e, mv));
    r
}

/// `sorted` is `cs` stably sorted by lowercased display name.
pub open spec fn sorts_contacts(cs: Seq<PlanningContactRecord>, sorted: Seq<PlanningContactRecord>) -> bool {
    is_stable_sort_by(cs, sorted, |c: PlanningContactRecord| contact_key(c))
}

/// The records with the updated contact in place of its old record; a contact
/// that no longer plans is only removed.
pub open spec fn replaced_contact(cs: Seq<PlanningContactRecord>, updated: PlanningContactRecord) -> Seq<PlanningContactRecord> {
    if is_planning_contact_spec(opt_view(updated.category)) {
        without_reference(cs, updated.reference@).push(updated)
    } else {
        without_reference(cs, updated.reference@)
    }
}

/// The records other than those with the given reference, in order.
pub open spec fn without_reference(cs: Seq<PlanningContactRecord>, reference: Seq<char>) -> Seq<PlanningContactRecord>
    decreases cs.len(),
{
    if cs.len() == 0 {
        Seq::empty()
    } else if cs.last().reference@ == reference {
        without_reference(cs.drop_last(), reference)
    } else {
        without_reference(cs.drop_last(), reference).push(cs.last())
    }
}

/// The cache entry of each planning contact, field for field.
pub open spec fn as_cache_entries(cs: Seq<PlanningContactRecord>, es: Seq<DayliteContactCacheEntry>) -> bool {
    &&& es.len() == cs.len()
    &&& forall|i: int|
        0 <= i < cs.len() ==> (#[trigger] es[i]).reference == cs[i].reference && es[i].full_name == cs[i].full_name
            && es[i].nickname == cs[i].nickname && es[i].category == cs[i].category && es[i].urls == cs[i].urls
}

/// The contact cache after a contact's URLs were updated: the cached contacts
/// mapped, the old record of the contact replaced by the updated one (dropped
/// when it no longer plans), only planning contacts kept, sorted by display
/// name.
pub fn refresh_contact_cache(cached: Vec<DayliteContactCacheEntry>, updated: PlanningContactRecord) -> (r: Vec<
    DayliteContactCacheEntry,
>)
    ensures
        exists|mapped: Seq<PlanningContactRecord>, sorted: Seq<PlanningContactRecord>|
            #![trigger maps_all_cached(cached@, mapped), sorts_contacts(planning_contacts(replaced_contact(mapped, updated)), sorted)]
            maps_all_cached(cached@, mapped) && sorts_contacts(planning_contacts(replaced_contact(mapped, updated)), sorted)
                && as_cache_entries(sorted, r@),
{
    let ghost e = cached@;
    let ghost u = updated;
    let mapped = map_all_cached(cached);
    let ghost mv = mapped@;
    let n = mapped.len();
    let mut rest = mapped;
    let mut kept: Vec<PlanningContactRecord> = Vec::new();
    let mut i: usize = 0;
    while i < n
        invariant
            n == mv.len(),
            i <= n,
            rest@ == mv.skip(i as int),
            kept@ == without_reference(mv.take(i as int), updated.reference@),
        decreases n - i,
    {
        let c = rest.remove(0);
        assert(c == mv[i as int]);
        proof {
            assert(mv.take(i + 1).drop_last() =~= mv.take(i as int));
            assert(mv.take(i + 1).last() == c);
        }
        if !text_eq(c.reference.as_str(), updated.reference.as_str()) {
            kept.push(c);
        }
        i = i + 1;
        assert(rest@ =~= mv.skip(i as int));
    }
    assert(mv.take(n as int) =~= mv);
    if is_planning_contact(&updated) {
        kept.push(updated);
    }
    let ghost before_sort = kept@;
    let sorted = sort_contacts(filter_planning_contacts(kept));
    let ghost sv = sorted@;
    let m = sorted.len();
    let mut srest = sorted;
    let mut r: Vec<DayliteContactCacheEntry> = Vec::new();
    let mut j: usize = 0;
    while j < m
        invariant
            m == sv.len(),
            j <= m,
            srest@ == sv.skip(j as int),
            r@.len() == j,
            forall|k: int|
                0 <= k < j ==> (#[trigger] r@[k]).reference == sv[k].reference && r@[k].full_name == sv[k].full_name
                    && r@[k].nickname == sv[k].nickname && r@[k].category == sv[k].category && r@[k].urls == sv[k].urls,
        decreases m - j,
    {
        let c = srest.remove(0);
        assert(c == sv[j as int]);
        r.push(map_planning_contact_to_cache_entry(c));
        j = j + 1;
        assert(srest@ =~= sv.skip(j as int));
    }
    assert(maps_all_cached(e, mv));
    assert(as_cache_entries(sv, r@));
    assert(before_sort == replaced_contact(mv, u));
    assert(sorts_contacts(planning_contacts(replaced_contact(mv, u)), sv));
    r
}

/// The name a contact is listed by: its trimmed nickname when it has a
/// non-blank one, else its trimmed full name when that is not blank, else
/// `Unbenannter Kontakt`.
pub open spec fn listed_name(c: PlanningContactRecord) -> Seq<char> {
    if c.nickname is Some && trimmed(c.nickname->0@).len() > 0 {
        trimmed(c.nickname->0@)
    } else if c.full_name is Some && trimmed(c.full_name->0@).len() > 0 {
        trimmed(c.full_name->0@)
    } else {
        "Unbenannter Kontakt"@
    }
}

/// A contact is shown by its listed name: the nickname when it has a
/// non-blank one, else the full name, else `Unbenannter Kontakt`.
pub proof fn law_display_name_is_the_listed_name(c: PlanningContactRecord)
    ensures
        display_name(opt_view(c.nickname), opt_view(c.full_name)) == listed_name(c),
{
}

/// Sorted contacts follow their lowercased listed names: a contact with a
/// nickname is placed by the nickname, not by its full name.
pub proof fn law_sorted_contacts_follow_their_listed_names(
    input: Seq<PlanningContactRecord>,
    output: Seq<PlanningContactRecord>,
)
    requires
        is_stable_sort_by(input, output, |c: PlanningContactRecord| contact_key(c)),
    ensures
        output.len() == input.len(),
        forall|i: int, j: int|
            0 <= i < j < output.len() ==> text_le(
                lowercased(listed_name(#[trigger] output[i])),
                lowercased(listed_name(#[trigger] output[j])),
            ),
{
    let key = |c: PlanningContactRecord| contact_key(c);
    let perm = choose|perm: Seq<int>| is_perm_sorted_by(input, output, perm, key);
    assert forall|i: int, j: int| 0 <= i < j < output.len() implies text_le(
        lowercased(listed_name(#[trigger] output[i])),
        lowercased(listed_name(#[trigger] output[j])),
    ) by {
        assert(key_le(key(output[i]), key(output[j])));
        assert(contact_key(output[i]).1 == lowercased(listed_name(output[i])));
        assert(contact_key(output[j]).1 == lowercased(listed_name(output[j])));
        lemma_text_le_refl(lowercased(listed_name(output[i])));
    }
}

/// Every URL left by `unmanaged_urls` is one of the given URLs without a
/// managed label.
proof fn lemma_unmanaged_entries(us: Seq<(Option<Seq<char>>, Option<Seq<char>>, Option<Seq<char>>)>)
    ensures
        forall|k: int| 0 <= k < unmanaged_urls(us).len() ==> !is_managed(#[trigger] unmanaged_urls(us)[k]) && us.contains(
            unmanaged_urls(us)[k],
        ),
        forall|k: int| 0 <= k < us.len() && !is_managed(#[trigger] us[k]) ==> unmanaged_urls(us).contains(us[k]),
    decreases us.len(),
{
    if us.len() > 0 {
        let init = us.drop_last();
        lemma_unmanaged_entries(init);
        assert forall|k: int| 0 <= k < unmanaged_urls(us).len() implies !is_managed(#[trigger] unmanaged_urls(us)[k])
            && us.contains(unmanaged_urls(us)[k]) by {
            if k < unmanaged_urls(init).len() {
                let x = unmanaged_urls(init)[k];
                assert(unmanaged_urls(us)[k] == x);
                let w = choose|w: int| 0 <= w < init.len() && init[w] == x;
                assert(us[w] == x);
            } else {
                assert(unmanaged_urls(us)[k] == us.last());
                assert(us[us.len() - 1] == us.last());
            }
        }
        assert forall|k: int| 0 <= k < us.len() && !is_managed(#[trigger] us[k]) implies unmanaged_urls(us).contains(us[k]) by {
            if k < us.len() - 1 {
                assert(init[k] == us[k]);
                let w = choose|w: int| 0 <= w < unmanaged_urls(init).len() && unmanaged_urls(init)[w] == init[k];
                assert(unmanaged_urls(us)[w] == us[k]);
            } else {
                assert(unmanaged_urls(us)[unmanaged_urls(us).len() - 1] == us[k]);
            }
        }
    }
}

/// The two managed labels read as their keys.
proof fn lemma_managed_labels()
    ensures
        normalized_label(Some(primary_label())) == Some("einsatz ical"@),
        normalized_label(Some(absence_label())) == Some("abwesenheit ical"@),
        "einsatz ical"@ != "abwesenheit ical"@,
{
    reveal_strlit("Einsatz iCal");
    reveal_strlit("Abwesenheit iCal");
    reveal_strlit("einsatz ical");
    reveal_strlit("abwesenheit ical");
    let p = primary_label();
    let a = absence_label();
    assert(!is_trimmed_char(p[0], false) && !is_trimmed_char(p[p.len() - 1], false));
    assert(trim_start_spec(p, false) == p);
    assert(trim_end_spec(p, false) == p);
    assert(!is_trimmed_char(a[0], false) && !is_trimmed_char(a[a.len() - 1], false));
    assert(trim_start_spec(a, false) == a);
    assert(trim_end_spec(a, false) == a);
    assert(is_ascii_text(p));
    assert(is_ascii_text(a));
    assert(ascii_lowered(p) =~= "einsatz ical"@);
    assert(ascii_lowered(a) =~= "abwesenheit ical"@);
    assert("einsatz ical"@.len() != "abwesenheit ical"@.len());
}

/// The URL the first well-formed entry for a calendar carries, when every
/// entry labelled for it carries the same trimmed, non-blank URL `v`.
proof fn lemma_managed_url_of_uniform(
    us: Seq<(Option<Seq<char>>, Option<Seq<char>>, Option<Seq<char>>)>,
    which: ManagedCalendar,
    v: Seq<char>,
)
    requires
        forall|k: int| 0 <= k < us.len() && normalized_label(#[trigger] us[k].0) == Some(managed_label_key(which)) ==> us[k].1
            == Some(v) && v.len() > 0 && trimmed(v) == v,
    ensures
        managed_url(us, which) == (if exists|k: int| 0 <= k < us.len() && normalized_label(#[trigger] us[k].0) == Some(
            managed_label_key(which),
        ) {
            Some(v)
        } else {
            None
        }),
    decreases us.len(),
{
    if us.len() > 0 {
        let rest = us.drop_first();
        assert forall|k: int| 0 <= k < rest.len() && normalized_label(#[trigger] rest[k].0) == Some(managed_label_key(which))
            implies rest[k].1 == Some(v) && v.len() > 0 && trimmed(v) == v by {
            assert(rest[k] == us[k + 1]);
        }
        lemma_managed_url_of_uniform(rest, which, v);
        if normalized_label(us[0].0) == Some(managed_label_key(which)) {
            assert(us[0].1 == Some(v));
        } else {
            if exists|k: int| 0 <= k < us.len() && normalized_label(#[trigger] us[k].0) == Some(managed_label_key(which)) {
                let k = choose|k: int| 0 <= k < us.len() && normalized_label(#[trigger] us[k].0) == Some(managed_label_key(which));
                assert(k != 0);
                assert(rest[k - 1] == us[k]);
            }
            if exists|k: int| 0 <= k < rest.len() && normalized_label(#[trigger] rest[k].0) == Some(managed_label_key(which)) {
                let k = choose|k: int| 0 <= k < rest.len() && normalized_label(#[trigger] rest[k].0) == Some(managed_label_key(which));
                assert(us[k + 1] == rest[k]);
            }
        }
    }
}

/// After the merge a contact holds its calendars once each: every entry under
/// the primary label carries the new primary URL (trimmed) and every entry
/// under the absence label the new absence URL, there is one such entry for
/// each URL that is not blank and none for a blank one, so each calendar
/// reads back as the new URL; every other entry of the contact is kept.
pub proof fn law_merged_urls_carry_each_new_calendar_once(
    existing: Seq<(Option<Seq<char>>, Option<Seq<char>>, Option<Seq<char>>)>,
    primary: Seq<char>,
    absence: Seq<char>,
)
    ensures
        forall|i: int|
            0 <= i < merged_urls(existing, primary, absence).len() && normalized_label(
                #[trigger] merged_urls(existing, primary, absence)[i].0,
            ) == Some("einsatz ical"@) ==> trimmed(primary).len() > 0 && merged_urls(existing, primary, absence)[i].1
                == Some(trimmed(primary)),
        forall|i: int|
            0 <= i < merged_urls(existing, primary, absence).len() && normalized_label(
                #[trigger] merged_urls(existing, primary, absence)[i].0,
            ) == Some("abwesenheit ical"@) ==> trimmed(absence).len() > 0 && merged_urls(existing, primary, absence)[i].1
                == Some(trimmed(absence)),
        forall|i: int, j: int|
            0 <= i < j < merged_urls(existing, primary, absence).len() ==> !(normalized_label(
                #[trigger] merged_urls(existing, primary, absence)[i].0,
            ) == Some("einsatz ical"@) && normalized_label(#[trigger] merged_urls(existing, primary, absence)[j].0) == Some(
                "einsatz ical"@,
            )) && !(normalized_label(merged_urls(existing, primary, absence)[i].0) == Some("abwesenheit ical"@)
                && normalized_label(merged_urls(existing, primary, absence)[j].0) == Some("abwesenheit ical"@)),
        managed_url(merged_urls(existing, primary, absence), ManagedCalendar::Primary) == (if trimmed(primary).len() > 0 {
            Some(trimmed(primary))
        } else {
            None
        }),
        managed_url(merged_urls(existing, primary, absence), ManagedCalendar::Absence) == (if trimmed(absence).len() > 0 {
            Some(trimmed(absence))
        } else {
            None
        }),
        forall|k: int|
            0 <= k < existing.len() && normalized_label(#[trigger] existing[k].0) != Some("einsatz ical"@)
                && normalized_label(existing[k].0) != Some("abwesenheit ical"@) ==> merged_urls(existing, primary, absence).contains(
                existing[k],
            ),
{
    let u = unmanaged_urls(existing);
    let pe = managed_entry(primary_label(), primary);
    let ae = managed_entry(absence_label(), absence);
    let m = merged_urls(existing, primary, absence);
    lemma_unmanaged_entries(existing);
    lemma_managed_labels();
    crate::text::lemma_trimmed_idempotent(primary);
    crate::text::lemma_trimmed_idempotent(absence);
    assert(m == u + pe + ae);
    assert forall|i: int| 0 <= i < m.len() implies (normalized_label(#[trigger] m[i].0) == Some("einsatz ical"@) ==> (
    i == u.len() && trimmed(primary).len() > 0 && m[i].1 == Some(trimmed(primary)))) && (normalized_label(m[i].0) == Some(
        "abwesenheit ical"@,
    ) ==> (i == u.len() + pe.len() && trimmed(absence).len() > 0 && m[i].1 == Some(trimmed(absence)))) by {
        if i < u.len() {
            assert(m[i] == u[i]);
            assert(!is_managed(u[i]));
        } else if i < u.len() + pe.len() {
            assert(m[i] == pe[i - u.len()]);
        } else {
            assert(m[i] == ae[i - u.len() - pe.len()]);
        }
    }
    lemma_managed_url_of_uniform(m, ManagedCalendar::Primary, trimmed(primary));
    lemma_managed_url_of_uniform(m, ManagedCalendar::Absence, trimmed(absence));
    if trimmed(primary).len() > 0 {
        assert(m[u.len() as int] == pe[0]);
        assert(normalized_label(m[u.len() as int].0) == Some("einsatz ical"@));
    }
    if trimmed(absence).len() > 0 {
        assert(m[(u.len() + pe.len()) as int] == ae[0]);
        assert(normalized_label(m[(u.len() + pe.len()) as int].0) == Some("abwesenheit ical"@));
    }
    assert forall|k: int|
        0 <= k < existing.len() && normalized_label(#[trigger] existing[k].0) != Some("einsatz ical"@)
            && normalized_label(existing[k].0) != Some("abwesenheit ical"@) implies m.contains(existing[k]) by {
        assert(!is_managed(existing[k]));
        let w = choose|w: int| 0 <= w < u.len() && u[w] == existing[k];
        assert(m[w] == u[w]);
    }
}

} // verus!
