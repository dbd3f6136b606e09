//! The rules of CalDAV writes: which URLs a write may target, how hrefs
//! resolve, and what the server's answers decide.

use super::ical::{ical_components, ical_read_error, parse_ical_events, raw_event_fields, raw_events_of};
use super::types::RawVEvent;
use crate::daylite::shared::{trim_trailing_slashes, without_trailing_slashes};
use crate::local_store::EmployeeSetting;
use crate::text::{decimal, opt_view, push_char, push_str, starts_with, text_eq, u64_to_text};
use vstd::prelude::*;
use vstd::string::StrSliceExecFns;

verus! {

/// The `Display` text of the error `Url::parse` gives for `s`; none when `s`
/// parses as a URL.
pub uninterp spec fn url_parse_error(s: Seq<char>) -> Option<Seq<char>>;

/// `Url::parse` (as `reqwest` re-exports it); its failure named
/// `url_parse_error`, returned as the error's `Display` text.
#[verifier::external_body]
fn parse_url(s: &str) -> (r: Result<(), String>)
    ensures
        match r {
            Ok(_) => url_parse_error(s@) is None,
            Err(e) => url_parse_error(s@) == Some(e@),
        },
{
    reqwest::Url::parse(s).map(|_| ()).map_err(|e| e.to_string())
}

/// What `Url::join` gives for `href` on the URL that `base` parses to: the
/// joined URL's `Display` text, or the error's.
pub uninterp spec fn url_join(base: Seq<char>, href: Seq<char>) -> Result<Seq<char>, Seq<char>>;

/// `Url::join` of `href` onto the parsed `base`; its result named `url_join`.
#[verifier::external_body]
fn join_url(base: &str, href: &str) -> (r: Result<String, String>)
    requires
        url_parse_error(base@) is None,
    ensures
        match r {
            Ok(u) => url_join(base@, href@) == Ok::<Seq<char>, Seq<char>>(u@),
            Err(e) => url_join(base@, href@) == Err::<Seq<char>, Seq<char>>(e@),
        },
{
    match reqwest::Url::parse(base) {
        Ok(parsed) => parsed.join(href).map(|u| u.to_string()).map_err(|e| e.to_string()),
        Err(e) => Err(e.to_string()),
    }
}

/// The collection a resource lies in: everything before the last `/` (all of
/// the text when there is none).
pub open spec fn parent_collection(s: Seq<char>) -> Seq<char>
    decreases s.len(),
{
    if s.len() == 0 {
        s
    } else if s.last() == '/' {
        s.drop_last()
    } else if exists|k: int| 0 <= k < s.len() && s[k] == '/' {
        parent_collection(s.drop_last())
    } else {
        s
    }
}

/// The URL of the collection a resource lies in (see `parent_collection`).
pub fn parent_collection_url(resource_url: &str) -> (r: String)
    ensures
        r@ == parent_collection(resource_url@),
{
    let n = resource_url.unicode_len();
    let mut b: usize = n;
    while b > 0 && resource_url.get_char(b - 1) != '/'
        invariant
            n == resource_url@.len(),
            b <= n,
            forall|k: int| b <= k < n ==> resource_url@[k] != '/',
        decreases b,
    {
        b = b - 1;
    }
    proof {
        lemma_parent_collection(resource_url@, b as int);
    }
    if b == 0 {
        resource_url.to_owned()
    } else {
        resource_url.substring_char(0, b - 1).to_owned()
    }
}

proof fn lemma_parent_collection(s: Seq<char>, b: int)
    requires
        0 <= b <= s.len(),
        forall|k: int| b <= k < s.len() ==> s[k] != '/',
        b == 0 || s[b - 1] == '/',
    ensures
        parent_collection(s) == (if b == 0 { s } else { s.subrange(0, b - 1) }),
    decreases s.len(),
{
    if s.len() == 0 {
    } else if s.last() == '/' {
        assert(b == s.len());
        assert(s.drop_last() =~= s.subrange(0, b - 1));
    } else if b == 0 {
        assert(!(exists|k: int| 0 <= k < s.len() && s[k] == '/'));
    } else {
        assert(s[b - 1] == '/');
        let t = s.drop_last();
        assert forall|k: int| b <= k < t.len() implies t[k] != '/' by {
            assert(t[k] == s[k]);
        }
        lemma_parent_collection(t, b);
        assert(t.subrange(0, b - 1) =~= s.subrange(0, b - 1));
    }
}

/// Whether `target` is the absence calendar `absence` or lies beneath it,
/// both without trailing slashes; a blank absence URL matches nothing.
pub open spec fn within_absence_calendar(target: Seq<char>, absence: Seq<char>) -> bool {
    let t = without_trailing_slashes(target);
    let a = without_trailing_slashes(absence);
    a.len() > 0 && (t == a || (a + seq!['/']).is_prefix_of(t))
}

/// Whether a write to `target_url` would land in one of the absence calendars.
pub open spec fn targets_absence(target: Seq<char>, absence_urls: Seq<String>) -> bool {
    exists|i: int| 0 <= i < absence_urls.len() && within_absence_calendar(target, #[trigger] absence_urls[i]@)
}

/// The guard every assignment write passes: no write may land in an absence
/// calendar, even when the store is misconfigured or an href is corrupted.
pub fn targets_absence_calendar(target_url: &str, absence_urls: &[String]) -> (r: bool)
    ensures
        r == targets_absence(target_url@, absence_urls@),
{
    let target = trim_trailing_slashes(target_url);
    let n = absence_urls.len();
    let mut i: usize = 0;
    while i < n
        invariant
            n == absence_urls@.len(),
            i <= n,
            target@ == without_trailing_slashes(target_url@),
            forall|k: int| 0 <= k < i ==> !within_absence_calendar(target_url@, #[trigger] absence_urls@[k]@),
        decreases n - i,
    {
        let absence = trim_trailing_slashes(absence_urls[i].as_str());
        if absence.as_str().unicode_len() > 0 {
            if text_eq(target.as_str(), absence.as_str()) {
                assert(within_absence_calendar(target_url@, absence_urls@[i as int]@));
                return true;
            }
            let mut prefix = absence;
            push_char(&mut prefix, '/');
            if starts_with(target.as_str(), prefix.as_str()) {
                assert(within_absence_calendar(target_url@, absence_urls@[i as int]@));
                return true;
            }
        }
        i = i + 1;
    }
    false
}

/// The message of a refused write to an absence calendar.
pub open spec fn absence_write_message() -> Seq<char> {
    "Einsätze können nicht in einen Abwesenheitskalender geschrieben werden."@
}

/// Refuses a write whose target lies in an absence calendar.
pub fn refuse_absence_calendar(target_url: &str, absence_urls: &[String]) -> (r: Result<(), String>)
    ensures
        r is Err <==> targets_absence(target_url@, absence_urls@),
        r matches Err(m) ==> m@ == absence_write_message(),
{
    if !targets_absence_calendar(target_url, absence_urls) {
        return Ok(());
    }
    Err("Einsätze können nicht in einen Abwesenheitskalender geschrieben werden.".to_owned())
}

/// The absence calendars configured for any employee (blank ones left out),
/// in settings order.
pub open spec fn absence_calendars(settings: Seq<EmployeeSetting>) -> Seq<Seq<char>>
    decreases settings.len(),
{
    if settings.len() == 0 {
        Seq::empty()
    } else {
        match opt_view(settings.last().zep_absence_calendar) {
            Some(u) => if u.len() > 0 {
                absence_calendars(settings.drop_last()).push(u)
            } else {
                absence_calendars(settings.drop_last())
            },
            None => absence_calendars(settings.drop_last()),
        }
    }
}

/// The absence calendar URLs every write is checked against.
pub fn absence_calendar_urls(settings: &Vec<EmployeeSetting>) -> (r: Vec<String>)
    ensures
        r@.map_values(|s: String| s@) == absence_calendars(settings@),
{
    let n = settings.len();
    let mut r: Vec<String> = Vec::new();
    let mut i: usize = 0;
    while i < n
        invariant
            n == settings@.len(),
            i <= n,
            r@.map_values(|s: String| s@) == absence_calendars(settings@.take(i as int)),
        decreases n - i,
    {
        proof {
            assert(settings@.take(i + 1).drop_last() =~= settings@.take(i as int));
            assert(settings@.take(i + 1).last() == settings@[i as int]);
        }
        if let Some(u) = &settings[i].zep_absence_calendar {
            if u.as_str().unicode_len() > 0 {
                let ghost before = r@;
                r.push(u.clone());
                assert(r@.map_values(|s: String| s@) =~= before.map_values(|s: String| s@).push(u@));
            }
        }
        i = i + 1;
    }
    assert(settings@.take(n as int) =~= settings@);
    r
}

/// Whether `href` is already an absolute `http://` or `https://` URL.
pub open spec fn is_absolute_href(href: Seq<char>) -> bool {
    "http://"@.is_prefix_of(href) || "https://"@.is_prefix_of(href)
}

/// Resolves a server-returned href against the origin of the base URL: an
/// absolute href passes unchanged, a base that does not parse is an invalid
/// calendar URL, and otherwise the href is joined onto the base (root-absolute
/// hrefs replace the base's path rather than duplicating it).
pub fn resolve_href(href: &str, base_url: &str) -> (r: Result<String, String>)
    ensures
        is_absolute_href(href@) ==> (r matches Ok(u) && u@ == href@),
        !is_absolute_href(href@) ==> match url_parse_error(base_url@) {
            Some(e) => r matches Err(m) && m@ == "Ungültige Kalender-URL: "@ + e,
            None => match url_join(base_url@, href@) {
                Ok(u) => r matches Ok(v) && v@ == u,
                Err(e) => r matches Err(m) && m@ == "Kalender-URL konnte nicht aufgelöst werden: "@ + e,
            },
        },
{
    if starts_with(href, "http://") || starts_with(href, "https://") {
        return Ok(href.to_owned());
    }
    match parse_url(base_url) {
        Ok(()) => {},
        Err(e) => {
            let mut m = "Ungültige Kalender-URL: ".to_owned();
            push_str(&mut m, e.as_str());
            return Err(m);
        },
    };
    match join_url(base_url, href) {
        Ok(u) => Ok(u),
        Err(e) => {
            let mut m = "Kalender-URL konnte nicht aufgelöst werden: ".to_owned();
            push_str(&mut m, e.as_str());
            Err(m)
        },
    }
}

/// The error text of an unexpected status from the calendar server.
pub open spec fn server_status_message(status: u16) -> Seq<char> {
    "Kalenderserver antwortete mit HTTP "@ + decimal(status as nat)
}

fn status_message(prefix: &str, status: u16) -> (r: String)
    ensures
        r@ == prefix@ + decimal(status as nat),
{
    let mut m = prefix.to_owned();
    let digits = u64_to_text(status as u64);
    push_str(&mut m, digits.as_str());
    m
}

/// What a single-resource read or delete answered: found (2xx), missing (404,
/// which a delete treats as already done), or an error for anything else.
pub fn resource_status(status: u16) -> (r: Result<bool, String>)
    ensures
        status == 404 ==> (r matches Ok(found) && !found),
        200 <= status < 300 ==> (r matches Ok(found) && found),
        status != 404 && !(200 <= status < 300) ==> (r matches Err(m) && m@ == server_status_message(status)),
{
    if status == 404 {
        return Ok(false);
    }
    if !(200 <= status && status < 300) {
        return Err(status_message("Kalenderserver antwortete mit HTTP ", status));
    }
    Ok(true)
}

/// What a calendar REPORT answered: 401 means the ZEP credentials were
/// refused, any other non-2xx status is a server error.
pub fn report_status(status: u16) -> (r: Result<(), String>)
    ensures
        (200 <= status < 300) <==> r is Ok,
        status == 401 ==> (r matches Err(m) && m@ == "Authentifizierung fehlgeschlagen. ZEP-Zugangsdaten prüfen."@),
        status != 401 && !(200 <= status < 300) ==> (r matches Err(m) && m@ == "CalDAV-Server antwortete mit HTTP "@
            + decimal(status as nat)),
{
    if status == 401 {
        return Err("Authentifizierung fehlgeschlagen. ZEP-Zugangsdaten prüfen.".to_owned());
    }
    if !(200 <= status && status < 300) {
        return Err(status_message("CalDAV-Server antwortete mit HTTP ", status));
    }
    Ok(())
}

/// The outcome of the slot writes of one day, from each PUT's transport result
/// or status in order: the first transport failure or non-2xx status other
/// than 412 is the error; otherwise whether any PUT was rejected with 412 and
/// the day needs re-planning.
pub open spec fn settled_puts(date: Seq<char>, results: Seq<Result<u16, Seq<char>>>) -> Result<bool, Seq<char>>
    decreases results.len(),
{
    if results.len() == 0 {
        Ok(false)
    } else {
        match results[0] {
            Err(e) => Err(e),
            Ok(status) => if status == 412 {
                match settled_puts(date, results.drop_first()) {
                    Ok(_) => Ok(true),
                    Err(e) => Err(e),
                }
            } else if !(200 <= status < 300) {
                Err(
                    "Zeitfenster für "@ + date + " konnten nicht aktualisiert werden: HTTP "@ + decimal(status as nat),
                )
            } else {
                settled_puts(date, results.drop_first())
            },
        }
    }
}

/// The views of PUT results.
pub open spec fn put_results_view(v: Seq<Result<u16, String>>) -> Seq<Result<u16, Seq<char>>> {
    v.map_values(|r: Result<u16, String>| match r {
        Ok(s) => Ok(s),
        Err(e) => Err(e@),
    })
}

/// Settles the slot writes of a day (see `settled_puts`).
pub fn settle_slot_puts(date: &str, results: Vec<Result<u16, String>>) -> (r: Result<bool, String>)
    ensures
        match settled_puts(date@, put_results_view(results@)) {
            Ok(c) => r matches Ok(d) && c == d,
            Err(e) => r matches Err(m) && m@ == e,
        },
{
    let ghost all = put_results_view(results@);
    let n = results.len();
    let mut conflicted = false;
    let mut i: usize = 0;
    assert(all.skip(0) =~= all);
    while i < n
        invariant
            n == results@.len(),
            all == put_results_view(results@),
            i <= n,
            settled_puts(date@, all) == match settled_puts(date@, all.skip(i as int)) {
                Ok(c) => Ok(c || conflicted),
                Err(e) => Err(e),
            },
        decreases n - i,
    {
        proof {
            let tail = all.skip(i as int);
            assert(tail[0] == all[i as int]);
            assert(tail.drop_first() =~= all.skip(i + 1));
        }
        match &results[i] {
            Err(e) => {
                return Err(e.clone());
            },
            Ok(status) => {
                let status = *status;
                if status == 412 {
                    conflicted = true;
                } else if !(200 <= status && status < 300) {
                    let mut m = "Zeitfenster für ".to_owned();
                    push_str(&mut m, date);
                    push_str(&mut m, " konnten nicht aktualisiert werden: HTTP ");
                    let digits = u64_to_text(status as u64);
                    push_str(&mut m, digits.as_str());
                    return Err(m);
                }
            },
        }
        i = i + 1;
    }
    assert(all.skip(n as int) =~= Seq::<Result<u16, Seq<char>>>::empty());
    Ok(conflicted)
}

/// How often a day is re-planned after rejected writes before giving up.
pub const MAX_REALLOCATE_ATTEMPTS: u32 = 3;

/// What follows a round of slot writes.
#[derive(Clone, Debug, PartialEq, Eq)]
pub enum ReplanStep {
    /// No write was rejected: the day is settled.
    Settled,
    /// A write raced a concurrent edit: fetch, re-plan and write the day again.
    Replan,
    /// The day kept racing: give up with this message.
    GaveUp(String),
}

/// The next step after round `attempt` (counted from 0) of slot writes for
/// `date`: settled when nothing conflicted, another round while fewer than
/// three have run, and otherwise a give-up message.
pub fn after_slot_puts(date: &str, attempt: u32, conflicted: bool) -> (r: ReplanStep)
    ensures
        !conflicted ==> r == ReplanStep::Settled,
        conflicted && attempt + 1 < MAX_REALLOCATE_ATTEMPTS ==> r == ReplanStep::Replan,
        conflicted && attempt + 1 >= MAX_REALLOCATE_ATTEMPTS ==> (r matches ReplanStep::GaveUp(m) && m@ == "Zeitfenster für "@
            + date@ + " konnten wegen gleichzeitiger Änderungen nicht aktualisiert werden."@),
{
    if !conflicted {
        return ReplanStep::Settled;
    }
    if (attempt as u64) + 1 < MAX_REALLOCATE_ATTEMPTS as u64 {
        return ReplanStep::Replan;
    }
    let mut m = "Zeitfenster für ".to_owned();
    push_str(&mut m, date);
    push_str(&mut m, " konnten wegen gleichzeitiger Änderungen nicht aktualisiert werden.");
    ReplanStep::GaveUp(m)
}

/// The resource URL of a new assignment: the calendar URL without trailing
/// slashes, then `/<uid>.ics`.
pub fn new_resource_url(calendar_url: &str, uid: &str) -> (r: String)
    ensures
        r@ == without_trailing_slashes(calendar_url@) + seq!['/'] + uid@ + ".ics"@,
{
    let mut r = trim_trailing_slashes(calendar_url);
    push_char(&mut r, '/');
    push_str(&mut r, uid);
    push_str(&mut r, ".ics");
    r
}

/// The event a single resource holds: the first VEVENT of its calendar data
/// with a readable start (the planner writes one per resource), none when
/// there is no such VEVENT, or the parse error. A resource read on its own has
/// no href, ETag or raw text of its own.
pub fn first_event(ical_text: &str) -> (r: Result<Option<RawVEvent>, String>)
    ensures
        match ical_components(ical_text@) {
            Err(e) => r matches Err(m) && m@ == ical_read_error(e),
            Ok(cs) => if raw_events_of(cs).len() == 0 {
                r matches Ok(None)
            } else {
                r matches Ok(Some(v)) && raw_event_fields(v) == raw_events_of(cs)[0] && v.href@.len() == 0
                    && v.etag@.len() == 0 && v.raw_ical@.len() == 0
            },
        },
{
    let mut events = match parse_ical_events(ical_text) {
        Ok(v) => v,
        Err(e) => return Err(e),
    };
    if events.len() == 0 {
        return Ok(None);
    }
    let ghost all = events@;
    let first = events.remove(0);
    assert(all.map_values(|x: RawVEvent| raw_event_fields(x))[0] == raw_event_fields(first));
    assert(all[0] == first);
    Ok(Some(first))
}

/// What a PUT of a whole resource answered: any non-2xx status is the server
/// error.
pub fn put_status(status: u16) -> (r: Result<(), String>)
    ensures
        (200 <= status < 300) <==> r is Ok,
        r matches Err(m) ==> m@ == server_status_message(status),
{
    if !(200 <= status && status < 300) {
        return Err(status_message("Kalenderserver antwortete mit HTTP ", status));
    }
    Ok(())
}

} // verus!
