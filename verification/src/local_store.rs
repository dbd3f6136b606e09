//! The locally persisted application store: endpoints, employee calendar
//! settings, display settings and the Daylite and holiday caches.

use crate::dates::{parse_ymd, sub_twelve_months, twelve_months_before, ymd_day, CalendarDate};
use crate::text::{contains_text, contains_text_spec, opt_view, push_str};
use vstd::prelude::*;

verus! {

/// Everything the planner keeps on disk between runs.
#[derive(Clone, Debug, PartialEq, Eq)]
pub struct LocalStore {
    pub api_endpoints: ApiEndpoints,
    pub employee_settings: Vec<EmployeeSetting>,
    pub display_settings: DisplaySettings,
    pub daylite_cache: DayliteCache,
    pub holiday_cache: Vec<HolidayCacheEntry>,
}

/// Base URLs of the integrated services.
#[derive(Clone, Debug, Default, PartialEq, Eq)]
pub struct ApiEndpoints {
    pub daylite_base_url: String,
    pub planradar_base_url: String,
    pub zep_caldav_root_url: String,
}

/// Calendar configuration of one employee (a Daylite contact).
#[derive(Clone, Debug, Default, PartialEq, Eq)]
pub struct EmployeeSetting {
    pub daylite_contact_reference: String,
    /// CalDAV URL of the primary (assignment) calendar.
    pub zep_primary_calendar: Option<String>,
    /// CalDAV URL of the absence calendar.
    pub zep_absence_calendar: Option<String>,
    pub primary_ical_last_tested_at: Option<String>,
    pub primary_ical_last_test_passed: Option<bool>,
    pub absence_ical_last_tested_at: Option<String>,
    pub absence_ical_last_test_passed: Option<bool>,
}

/// View options of the planning grid.
#[derive(Clone, Debug, PartialEq, Eq)]
pub struct DisplaySettings {
    pub hide_non_plannable_employees: bool,
    pub show_weekend: bool,
}

impl Default for DisplaySettings {
    /// Non-plannable employees are hidden and the weekend is not shown.
    fn default() -> (r: Self)
        ensures
            r.hide_non_plannable_employees,
            !r.show_weekend,
    {
        DisplaySettings { hide_non_plannable_employees: true, show_weekend: false }
    }
}

impl Default for LocalStore {
    /// An empty store with the default display settings.
    fn default() -> (r: Self)
        ensures
            r.api_endpoints.daylite_base_url@.len() == 0,
            r.employee_settings@.len() == 0,
            r.display_settings.hide_non_plannable_employees,
            !r.display_settings.show_weekend,
            r.daylite_cache.last_synced_at is None,
            r.daylite_cache.projects@.len() == 0,
            r.daylite_cache.contacts@.len() == 0,
            r.holiday_cache@.len() == 0,
    {
        LocalStore {
            api_endpoints: ApiEndpoints {
                daylite_base_url: String::new(),
                planradar_base_url: String::new(),
                zep_caldav_root_url: String::new(),
            },
            employee_settings: Vec::new(),
            display_settings: DisplaySettings { hide_non_plannable_employees: true, show_weekend: false },
            daylite_cache: DayliteCache { last_synced_at: None, projects: Vec::new(), contacts: Vec::new() },
            holiday_cache: Vec::new(),
        }
    }
}

/// Daylite records cached for offline display.
#[derive(Clone, Debug, Default, PartialEq, Eq)]
pub struct DayliteCache {
    pub last_synced_at: Option<String>,
    pub projects: Vec<DayliteProjectCacheEntry>,
    pub contacts: Vec<DayliteContactCacheEntry>,
}

/// A cached project: reference, name and status.
#[derive(Clone, Debug, Default, PartialEq, Eq)]
pub struct DayliteProjectCacheEntry {
    pub reference: String,
    pub name: String,
    pub status: String,
}

/// A cached planning contact.
#[derive(Clone, Debug, Default, PartialEq, Eq)]
pub struct DayliteContactCacheEntry {
    pub reference: String,
    pub full_name: Option<String>,
    pub nickname: Option<String>,
    pub category: Option<String>,
    pub urls: Vec<DayliteContactUrl>,
}

/// A labelled URL of a Daylite contact.
#[derive(Clone, Debug, Default, PartialEq, Eq)]
pub struct DayliteContactUrl {
    pub label: Option<String>,
    pub url: Option<String>,
    pub note: Option<String>,
}

impl View for DayliteContactUrl {
    type V = (Option<Seq<char>>, Option<Seq<char>>, Option<Seq<char>>);

    open spec fn view(&self) -> (Option<Seq<char>>, Option<Seq<char>>, Option<Seq<char>>) {
        (opt_view(self.label), opt_view(self.url), opt_view(self.note))
    }
}

/// The abstract content of an employee's calendar settings.
pub struct EmployeeSettingView {
    pub reference: Seq<char>,
    pub primary: Option<Seq<char>>,
    pub absence: Option<Seq<char>>,
    pub primary_tested_at: Option<Seq<char>>,
    pub primary_passed: Option<bool>,
    pub absence_tested_at: Option<Seq<char>>,
    pub absence_passed: Option<bool>,
}

impl View for EmployeeSetting {
    type V = EmployeeSettingView;

    open spec fn view(&self) -> EmployeeSettingView {
        EmployeeSettingView {
            reference: self.daylite_contact_reference@,
            primary: opt_view(self.zep_primary_calendar),
            absence: opt_view(self.zep_absence_calendar),
            primary_tested_at: opt_view(self.primary_ical_last_tested_at),
            primary_passed: self.primary_ical_last_test_passed,
            absence_tested_at: opt_view(self.absence_ical_last_tested_at),
            absence_passed: self.absence_ical_last_test_passed,
        }
    }
}

/// The public holidays of one year, with the day they were fetched.
#[derive(Clone, Debug, PartialEq, Eq)]
pub struct HolidayCacheEntry {
    pub year: i32,
    /// `yyyy-MM-dd` day of the fetch.
    pub fetched_at: String,
    pub holidays: Vec<CachedHoliday>,
}

/// A cached holiday.
#[derive(Clone, Debug, PartialEq, Eq)]
pub struct CachedHoliday {
    pub date: String,
    pub name: String,
}

/// Why the store could not be read or written.
#[derive(Clone, Debug, PartialEq, Eq)]
pub struct StoreError {
    pub code: StoreErrorCode,
    pub user_message: String,
    pub technical_message: String,
}

/// The kind of a store failure.
#[derive(Clone, Copy, Debug, PartialEq, Eq, Structural)]
pub enum StoreErrorCode {
    ReadFailed,
    WriteFailed,
    CorruptFile,
    MissingFields,
}

impl StoreError {
    /// A store error with the given code and messages.
    pub fn new(code: StoreErrorCode, user_message: String, technical_message: String) -> (r: Self)
        ensures
            r.code == code,
            r.user_message@ == user_message@,
            r.technical_message@ == technical_message@,
    {
        StoreError { code, user_message, technical_message }
    }
}

/// The cutoff of the holiday cache: twelve months before today, or today
/// itself when that day cannot be represented.
pub open spec fn holiday_cutoff(today: int) -> int {
    match twelve_months_before(today) {
        Some(d) => d,
        None => today,
    }
}

/// A cache entry survives cleanup when its fetch day is after the cutoff or
/// cannot be read at all.
pub open spec fn holiday_entry_kept(entry: HolidayCacheEntry, cutoff: int) -> bool {
    match ymd_day(entry.fetched_at@) {
        Some(d) => d > cutoff,
        None => true,
    }
}

/// The entries that survive cleanup, in their order.
pub open spec fn kept_holiday_entries(entries: Seq<HolidayCacheEntry>, cutoff: int) -> Seq<HolidayCacheEntry>
    decreases entries.len(),
{
    if entries.len() == 0 {
        Seq::empty()
    } else if holiday_entry_kept(entries.last(), cutoff) {
        kept_holiday_entries(entries.drop_last(), cutoff).push(entries.last())
    } else {
        kept_holiday_entries(entries.drop_last(), cutoff)
    }
}

impl LocalStore {
    /// Drops holiday cache entries fetched twelve months or more before `today`;
    /// entries whose fetch day cannot be read are kept.
    pub fn cleanup_holiday_cache(&mut self, today: CalendarDate)
        ensures
            final(self).holiday_cache@ == kept_holiday_entries(
                old(self).holiday_cache@,
                holiday_cutoff(today.day as int),
            ),
            final(self).api_endpoints == old(self).api_endpoints,
            final(self).employee_settings == old(self).employee_settings,
            final(self).display_settings == old(self).display_settings,
            final(self).daylite_cache == old(self).daylite_cache,
    {
        let cutoff = match sub_twelve_months(today) {
            Some(d) => d,
            None => today,
        };
        let mut entries: Vec<HolidayCacheEntry> = Vec::new();
        std::mem::swap(&mut entries, &mut self.holiday_cache);
        let ghost orig = entries@;
        let n = entries.len();
        let mut kept: Vec<HolidayCacheEntry> = Vec::new();
        let mut i: usize = 0;
        while i < n
            invariant
                n == orig.len(),
                i <= n,
                entries@ == orig.skip(i as int),
                kept@ == kept_holiday_entries(orig.take(i as int), cutoff.day as int),
            decreases n - i,
        {
            let entry = entries.remove(0);
            assert(entry == orig[i as int]);
            let keep = match parse_ymd(entry.fetched_at.as_str()) {
                Some(d) => d.day > cutoff.day,
                None => true,
            };
            proof {
                assert(orig.take(i + 1).drop_last() =~= orig.take(i as int));
                assert(orig.take(i + 1).last() == entry);
            }
            if keep {
                kept.push(entry);
            }
            i = i + 1;
            assert(entries@ =~= orig.skip(i as int));
        }
        assert(orig.take(n as int) =~= orig);
        self.holiday_cache = kept;
    }
}


/// References to the stored service tokens, as older stores kept them.
#[derive(Clone, Debug, Default, PartialEq, Eq)]
pub struct TokenReferences {
    pub daylite_token_reference: String,
    pub planradar_token_reference: String,
    pub daylite_access_token: String,
    pub daylite_refresh_token: String,
    pub daylite_access_token_expires_at_ms: Option<u64>,
}

/// The standard project filter of the planning board.
#[derive(Clone, Debug, PartialEq, Eq)]
pub struct StandardFilter {
    pub pipelines: Vec<String>,
    pub columns: Vec<String>,
    pub categories: Vec<String>,
    pub exclusion_statuses: Vec<String>,
}

/// The views of a list of texts.
pub open spec fn texts_view(v: Seq<String>) -> Seq<Seq<char>> {
    v.map_values(|s: String| s@)
}

impl Default for StandardFilter {
    /// The `Aufträge` pipeline in preparation or execution, overdue or with a
    /// known delivery date, without done projects.
    fn default() -> (r: Self)
        ensures
            texts_view(r.pipelines@) == seq!["Aufträge"@],
            texts_view(r.columns@) == seq!["Vorbereitung"@, "Durchführung"@],
            texts_view(r.categories@) == seq!["Überfällig"@, "Liefertermin bekannt"@],
            texts_view(r.exclusion_statuses@) == seq!["Done"@],
    {
        let r = StandardFilter {
            pipelines: vec!["Aufträge".to_owned()],
            columns: vec!["Vorbereitung".to_owned(), "Durchführung".to_owned()],
            categories: vec!["Überfällig".to_owned(), "Liefertermin bekannt".to_owned()],
            exclusion_statuses: vec!["Done".to_owned()],
        };
        assert(texts_view(r.pipelines@) =~= seq!["Aufträge"@]);
        assert(texts_view(r.columns@) =~= seq!["Vorbereitung"@, "Durchführung"@]);
        assert(texts_view(r.categories@) =~= seq!["Überfällig"@, "Liefertermin bekannt"@]);
        assert(texts_view(r.exclusion_statuses@) =~= seq!["Done"@]);
        r
    }
}

/// Which Daylite contacts count as active employees.
#[derive(Clone, Debug, PartialEq, Eq)]
pub struct ContactFilter {
    pub active_employee_keyword: String,
}

impl Default for ContactFilter {
    /// Employees are the contacts marked `Monteur`.
    fn default() -> (r: Self)
        ensures
            r.active_employee_keyword@ == "Monteur"@,
    {
        ContactFilter { active_employee_keyword: "Monteur".to_owned() }
    }
}

/// Route planning settings (openrouteservice).
#[derive(Clone, Debug, PartialEq, Eq)]
pub struct RoutingSettings {
    pub openrouteservice_api_key: String,
    pub openrouteservice_profile: String,
}

impl Default for RoutingSettings {
    /// No API key, driving by car.
    fn default() -> (r: Self)
        ensures
            r.openrouteservice_api_key@.len() == 0,
            r.openrouteservice_profile@ == "driving-car"@,
    {
        RoutingSettings { openrouteservice_api_key: String::new(), openrouteservice_profile: "driving-car".to_owned() }
    }
}

/// A labelled URL of a cached contact, as older stores kept it.
#[derive(Clone, Debug, Default, PartialEq, Eq)]
pub struct DayliteContactUrlCacheEntry {
    pub label: Option<String>,
    pub url: Option<String>,
    pub note: Option<String>,
}


/// The error of a store file that is not a valid store: missing fields when
/// the JSON error says so, a corrupt file otherwise. `path` is the file's
/// display name, `detail` the JSON error text.
pub fn store_parse_error(path: &str, detail: &str) -> (r: StoreError)
    ensures
        contains_text_spec(detail@, "missing field"@) ==> r.code == StoreErrorCode::MissingFields
            && r.user_message@ == "Die lokale Konfiguration ist unvollständig und muss geprüft werden."@
            && r.technical_message@ == "Fehlende Felder in "@ + path@ + ": "@ + detail@,
        !contains_text_spec(detail@, "missing field"@) ==> r.code == StoreErrorCode::CorruptFile
            && r.user_message@ == "Die lokale Konfiguration ist beschädigt und konnte nicht gelesen werden."@
            && r.technical_message@ == "Ungültiges JSON in "@ + path@ + ": "@ + detail@,
{
    if contains_text(detail, "missing field") {
        let mut t = "Fehlende Felder in ".to_owned();
        push_str(&mut t, path);
        push_str(&mut t, ": ");
        push_str(&mut t, detail);
        return StoreError::new(
            StoreErrorCode::MissingFields,
            "Die lokale Konfiguration ist unvollständig und muss geprüft werden.".to_owned(),
            t,
        );
    }
    let mut t = "Ungültiges JSON in ".to_owned();
    push_str(&mut t, path);
    push_str(&mut t, ": ");
    push_str(&mut t, detail);
    StoreError::new(
        StoreErrorCode::CorruptFile,
        "Die lokale Konfiguration ist beschädigt und konnte nicht gelesen werden.".to_owned(),
        t,
    )
}

} // verus!
