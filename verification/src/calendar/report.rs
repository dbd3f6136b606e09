//! CalDAV REPORT requests and responses: the calendar query for a time range
//! and the events read out of the multistatus answer.

use super::ical::{ical_components, ical_read_error, parse_ical_events, raw_event_fields, raw_events_of, RawEventView};
use super::types::RawVEvent;
use super::slots::{remove_dashes, without_dashes};
use crate::dates::{day_text, format_ymd, CalendarDate};
use crate::text::{opt_view, push_str, text_eq};
use vstd::prelude::*;

verus! {

/// An XML node as plain values: namespace and local name (both empty of an
/// element for other nodes), its text, and the index of its parent.
pub struct XmlNode {
    pub namespace: Option<String>,
    pub name: String,
    pub text: Option<String>,
    pub parent: Option<usize>,
}

/// The abstract content of an XML node.
pub struct XmlNodeView {
    pub namespace: Option<Seq<char>>,
    pub name: Seq<char>,
    pub text: Option<Seq<char>>,
    pub parent: Option<usize>,
}

impl View for XmlNode {
    type V = XmlNodeView;

    open spec fn view(&self) -> XmlNodeView {
        XmlNodeView { namespace: opt_view(self.namespace), name: self.name@, text: opt_view(self.text), parent: self.parent }
    }
}

/// The nodes of an XML document in document order, as `roxmltree` parses it
/// (`Document::parse`, then `descendants()` of the root); or the parse error's
/// `Display` text.
pub uninterp spec fn xml_nodes(text: Seq<char>) -> Result<Seq<XmlNodeView>, Seq<char>>;

/// The views of a list of nodes.
pub open spec fn nodes_view(v: Seq<XmlNode>) -> Seq<XmlNodeView> {
    v.map_values(|n: XmlNode| n@)
}

/// `roxmltree::Document::parse`, the document's nodes listed in document
/// order as plain values; named `xml_nodes`. Nodes are numbered in the order
/// they are created, so a parent always comes before its children.
#[verifier::external_body]
fn read_xml_nodes(text: &str) -> (r: Result<Vec<XmlNode>, String>)
    ensures
        match r {
            Ok(ns) => xml_nodes(text@) == Ok::<Seq<XmlNodeView>, Seq<char>>(nodes_view(ns@)),
            Err(e) => xml_nodes(text@) == Err::<Seq<XmlNodeView>, Seq<char>>(e@),
        },
        r matches Ok(ns) ==> parents_first(nodes_view(ns@)),
{
    let doc = roxmltree::Document::parse(text).map_err(|e| e.to_string())?;
    Ok(doc.descendants().map(|n| XmlNode {
        namespace: n.tag_name().namespace().map(|s| s.to_string()),
        name: n.tag_name().name().to_string(),
        text: n.text().map(|s| s.to_string()),
        parent: n.parent().map(|p| p.id().get_usize()),
    }).collect())
}

/// Every node's parent comes before it.
pub open spec fn parents_first(nodes: Seq<XmlNodeView>) -> bool {
    forall|i: int| 0 <= i < nodes.len() ==> ((#[trigger] nodes[i]).parent matches Some(p) ==> p < i)
}

/// The WebDAV namespace.
pub open spec fn dav() -> Seq<char> {
    "DAV:"@
}

/// Whether a node is the element `name` in namespace `ns`.
pub open spec fn is_tag(n: XmlNodeView, ns: Seq<char>, name: Seq<char>) -> bool {
    n.namespace == Some(ns) && n.name == name
}

/// The nearest `DAV:response` at or above node `i`.
pub open spec fn response_of(nodes: Seq<XmlNodeView>, i: int) -> Option<int>
    decreases i,
{
    if i < 0 || i >= nodes.len() {
        None
    } else if is_tag(nodes[i], dav(), "response"@) {
        Some(i)
    } else {
        match nodes[i].parent {
            Some(p) => if p < i {
                response_of(nodes, p as int)
            } else {
                None
            },
            None => None,
        }
    }
}

/// Whether node `a` is node `i` or one of its ancestors.
pub open spec fn is_ancestor_or_self(nodes: Seq<XmlNodeView>, a: int, i: int) -> bool
    decreases i,
{
    if i < 0 || i >= nodes.len() {
        false
    } else if i == a {
        true
    } else {
        match nodes[i].parent {
            Some(p) => p < i && is_ancestor_or_self(nodes, a, p as int),
            None => false,
        }
    }
}

/// The first node at index `from` or later that is a `DAV:href` child of `r`.
pub open spec fn first_href_child(nodes: Seq<XmlNodeView>, r: int, from: int) -> Option<int>
    decreases nodes.len() - from,
{
    if from < 0 || from >= nodes.len() {
        None
    } else if nodes[from].parent == Some(r as usize) && is_tag(nodes[from], dav(), "href"@) {
        Some(from)
    } else {
        first_href_child(nodes, r, from + 1)
    }
}

/// The first node at index `from` or later within `r`'s subtree named `getetag`.
pub open spec fn first_etag_within(nodes: Seq<XmlNodeView>, r: int, from: int) -> Option<int>
    decreases nodes.len() - from,
{
    if from < 0 || from >= nodes.len() {
        None
    } else if is_ancestor_or_self(nodes, r, from) && nodes[from].name == "getetag"@ {
        Some(from)
    } else {
        first_etag_within(nodes, r, from + 1)
    }
}

/// The text of a node, empty when it has none.
pub open spec fn text_of(nodes: Seq<XmlNodeView>, i: Option<int>) -> Seq<char> {
    match i {
        Some(i) => match nodes[i].text {
            Some(t) => t,
            None => Seq::empty(),
        },
        None => Seq::empty(),
    }
}

/// The href of the response around node `i`: the text of its first `DAV:href`
/// child, empty when there is none.
pub open spec fn href_around(nodes: Seq<XmlNodeView>, i: int) -> Seq<char> {
    match response_of(nodes, i) {
        Some(r) => text_of(nodes, first_href_child(nodes, r, 0)),
        None => Seq::empty(),
    }
}

/// The ETag of the response around node `i`: the text of the first `getetag`
/// within it, empty when there is none.
pub open spec fn etag_around(nodes: Seq<XmlNodeView>, i: int) -> Seq<char> {
    match response_of(nodes, i) {
        Some(r) => text_of(nodes, first_etag_within(nodes, r, 0)),
        None => Seq::empty(),
    }
}

/// A raw event together with the href, ETag and calendar data it came with.
pub open spec fn with_source(evs: Seq<RawEventView>, href: Seq<char>, etag: Seq<char>, data: Seq<char>) -> Seq<
    (RawEventView, Seq<char>, Seq<char>, Seq<char>),
> {
    evs.map_values(|e: RawEventView| (e, href, etag, data))
}

/// The events of the first `k` nodes: every `calendar-data` element with text
/// contributes its VEVENTs with the href and ETag of its response and its own
/// text as calendar data; the first iCal error ends the report.
pub open spec fn report_events(nodes: Seq<XmlNodeView>, k: int) -> Result<Seq<(RawEventView, Seq<char>, Seq<char>, Seq<char>)>, Seq<char>>
    decreases k,
{
    if k <= 0 {
        Ok(Seq::empty())
    } else {
        match report_events(nodes, k - 1) {
            Err(e) => Err(e),
            Ok(prev) => {
                let n = nodes[k - 1];
                if n.name == "calendar-data"@ && n.text is Some {
                    let t = n.text->0;
                    match ical_components(t) {
                        Err(e) => Err(ical_read_error(e)),
                        Ok(cs) => Ok(prev + with_source(raw_events_of(cs), href_around(nodes, k - 1), etag_around(nodes, k - 1), t)),
                    }
                } else {
                    Ok(prev)
                }
            },
        }
    }
}

proof fn lemma_report_error_sticks(nodes: Seq<XmlNodeView>, k: int, k2: int)
    requires
        0 <= k <= k2,
        report_events(nodes, k) is Err,
    ensures
        report_events(nodes, k2) == report_events(nodes, k),
    decreases k2 - k,
{
    if k2 > k {
        lemma_report_error_sticks(nodes, k, k2 - 1);
    }
}

/// The view of a raw event with its source.
pub open spec fn sourced_view(x: RawVEvent) -> (RawEventView, Seq<char>, Seq<char>, Seq<char>) {
    (raw_event_fields(x), x.href@, x.etag@, x.raw_ical@)
}

fn find_response(nodes: &Vec<XmlNode>, i: usize) -> (r: Option<usize>)
    requires
        parents_first(nodes_view(nodes@)),
        i < nodes@.len(),
    ensures
        match r {
            Some(k) => response_of(nodes_view(nodes@), i as int) == Some(k as int) && k < nodes@.len(),
            None => response_of(nodes_view(nodes@), i as int) is None,
        },
{
    let ghost nv = nodes_view(nodes@);
    let mut j = i;
    loop
        invariant
            nv == nodes_view(nodes@),
            parents_first(nv),
            j < nodes@.len(),
            response_of(nv, i as int) == response_of(nv, j as int),
        decreases j,
    {
        assert(nv[j as int] == nodes@[j as int]@);
        let is_response = match &nodes[j].namespace {
            Some(ns) => text_eq(ns.as_str(), "DAV:") && text_eq(nodes[j].name.as_str(), "response"),
            None => false,
        };
        if is_response {
            return Some(j);
        }
        match nodes[j].parent {
            Some(p) => {
                assert(p < j);
                j = p;
            },
            None => {
                return None;
            },
        }
    }
}

fn ancestor_or_self(nodes: &Vec<XmlNode>, a: usize, i: usize) -> (r: bool)
    requires
        parents_first(nodes_view(nodes@)),
        i < nodes@.len(),
    ensures
        r == is_ancestor_or_self(nodes_view(nodes@), a as int, i as int),
{
    let ghost nv = nodes_view(nodes@);
    let mut j = i;
    loop
        invariant
            nv == nodes_view(nodes@),
            parents_first(nv),
            j < nodes@.len(),
            is_ancestor_or_self(nv, a as int, i as int) == is_ancestor_or_self(nv, a as int, j as int),
        decreases j,
    {
        assert(nv[j as int] == nodes@[j as int]@);
        if j == a {
            return true;
        }
        match nodes[j].parent {
            Some(p) => {
                assert(p < j);
                j = p;
            },
            None => {
                return false;
            },
        }
    }
}

fn node_text(nodes: &Vec<XmlNode>, i: Option<usize>) -> (r: String)
    requires
        i matches Some(k) ==> k < nodes@.len(),
    ensures
        r@ == text_of(nodes_view(nodes@), match i { Some(k) => Some(k as int), None => None }),
{
    match i {
        Some(k) => {
            assert(nodes_view(nodes@)[k as int] == nodes@[k as int]@);
            match &nodes[k].text {
                Some(t) => t.clone(),
                None => String::new(),
            }
        },
        None => String::new(),
    }
}

fn response_href(nodes: &Vec<XmlNode>, r: usize) -> (h: String)
    requires
        r < nodes@.len(),
    ensures
        h@ == text_of(nodes_view(nodes@), first_href_child(nodes_view(nodes@), r as int, 0)),
{
    let ghost nv = nodes_view(nodes@);
    let n = nodes.len();
    let mut j: usize = 0;
    while j < n
        invariant
            n == nodes@.len(),
            nv == nodes_view(nodes@),
            j <= n,
            first_href_child(nv, r as int, 0) == first_href_child(nv, r as int, j as int),
        decreases n - j,
    {
        assert(nv[j as int] == nodes@[j as int]@);
        let is_href = match (&nodes[j].namespace, nodes[j].parent) {
            (Some(ns), Some(p)) => p == r && text_eq(ns.as_str(), "DAV:") && text_eq(nodes[j].name.as_str(), "href"),
            _ => false,
        };
        if is_href {
            return node_text(nodes, Some(j));
        }
        j = j + 1;
    }
    node_text(nodes, None)
}

fn response_etag(nodes: &Vec<XmlNode>, r: usize) -> (h: String)
    requires
        parents_first(nodes_view(nodes@)),
        r < nodes@.len(),
    ensures
        h@ == text_of(nodes_view(nodes@), first_etag_within(nodes_view(nodes@), r as int, 0)),
{
    let ghost nv = nodes_view(nodes@);
    let n = nodes.len();
    let mut j: usize = 0;
    while j < n
        invariant
            n == nodes@.len(),
            nv == nodes_view(nodes@),
            parents_first(nv),
            j <= n,
            first_etag_within(nv, r as int, 0) == first_etag_within(nv, r as int, j as int),
        decreases n - j,
    {
        assert(nv[j as int] == nodes@[j as int]@);
        if text_eq(nodes[j].name.as_str(), "getetag") && ancestor_or_self(nodes, r, j) {
            return node_text(nodes, Some(j));
        }
        j = j + 1;
    }
    node_text(nodes, None)
}

/// The events of a CalDAV multistatus answer (see `report_events`); a
/// document that is not XML fails with `XML konnte nicht geparst werden: …`.
pub fn parse_caldav_report(xml_text: &str) -> (r: Result<Vec<RawVEvent>, String>)
    ensures
        match xml_nodes(xml_text@) {
            Err(e) => r matches Err(m) && m@ == "XML konnte nicht geparst werden: "@ + e,
            Ok(nodes) => match report_events(nodes, nodes.len() as int) {
                Ok(evs) => r matches Ok(v) && v@.map_values(|x: RawVEvent| sourced_view(x)) == evs,
                Err(e) => r matches Err(m) && m@ == e,
            },
        },
{
    let nodes = match read_xml_nodes(xml_text) {
        Ok(ns) => ns,
        Err(e) => {
            let mut m = "XML konnte nicht geparst werden: ".to_owned();
            push_str(&mut m, e.as_str());
            return Err(m);
        },
    };
    let ghost nv = nodes_view(nodes@);
    let n = nodes.len();
    let mut events: Vec<RawVEvent> = Vec::new();
    let mut i: usize = 0;
    assert(events@.map_values(|x: RawVEvent| sourced_view(x)) =~= Seq::empty());
    while i < n
        invariant
            n == nodes@.len(),
            nv == nodes_view(nodes@),
            xml_nodes(xml_text@) == Ok::<Seq<XmlNodeView>, Seq<char>>(nv),
            parents_first(nv),
            i <= n,
            report_events(nv, i as int) == Ok::<Seq<(RawEventView, Seq<char>, Seq<char>, Seq<char>)>, Seq<char>>(
                events@.map_values(|x: RawVEvent| sourced_view(x)),
            ),
        decreases n - i,
    {
        assert(nv[i as int] == nodes@[i as int]@);
        if text_eq(nodes[i].name.as_str(), "calendar-data") {
            if let Some(t) = &nodes[i].text {
                let (href, etag) = match find_response(&nodes, i) {
                    Some(r) => (response_href(&nodes, r), response_etag(&nodes, r)),
                    None => (String::new(), String::new()),
                };
                let parsed = match parse_ical_events(t.as_str()) {
                    Ok(v) => v,
                    Err(e) => {
                        proof {
                            assert(nv[i as int].text == Some(t@));
                            assert(nv[i as int].name == "calendar-data"@);
                            assert(ical_components(t@) is Err && ical_read_error(ical_components(t@)->Err_0) == e@);
                            assert(report_events(nv, i + 1) == Err::<Seq<(RawEventView, Seq<char>, Seq<char>, Seq<char>)>, Seq<char>>(e@));
                            lemma_report_error_sticks(nv, i + 1, n as int);
                        }
                        return Err(e);
                    },
                };
                let ghost base = events@;
                let ghost cs = ical_components(t@)->Ok_0;
                let m = parsed.len();
                let mut rest = parsed;
                let ghost pv = rest@;
                let mut k: usize = 0;
                while k < m
                    invariant
                        m == pv.len(),
                        k <= m,
                        rest@ == pv.skip(k as int),
                        pv.map_values(|x: RawVEvent| raw_event_fields(x)) == raw_events_of(cs),
                        events@.map_values(|x: RawVEvent| sourced_view(x)) == base.map_values(|x: RawVEvent| sourced_view(x))
                            + with_source(raw_events_of(cs).take(k as int), href@, etag@, t@),
                    decreases m - k,
                {
                    let mut ev = rest.remove(0);
                    assert(ev == pv[k as int]);
                    ev.href = href.clone();
                    ev.etag = etag.clone();
                    ev.raw_ical = t.clone();
                    let ghost before = events@;
                    events.push(ev);
                    proof {
                        assert(raw_event_fields(ev) == raw_events_of(cs)[k as int]) by {
                            assert(pv.map_values(|x: RawVEvent| raw_event_fields(x))[k as int] == raw_event_fields(pv[k as int]));
                        }
                        assert(with_source(raw_events_of(cs).take(k + 1), href@, etag@, t@) =~= with_source(
                            raw_events_of(cs).take(k as int),
                            href@,
                            etag@,
                            t@,
                        ).push((raw_events_of(cs)[k as int], href@, etag@, t@)));
                        assert(events@.map_values(|x: RawVEvent| sourced_view(x)) =~= before.map_values(|x: RawVEvent| sourced_view(x)).push(sourced_view(ev)));
                    }
                    k = k + 1;
                    assert(rest@ =~= pv.skip(k as int));
                }
                proof {
                    assert(pv.map_values(|x: RawVEvent| raw_event_fields(x)).len() == m);
                    assert(raw_events_of(cs).take(m as int) =~= raw_events_of(cs));
                }
            }
        }
        i = i + 1;
    }
    Ok(events)
}

/// The body of a calendar query for VEVENTs overlapping `start..end`
/// (`yyyyMMddT000000Z` stamps), asking for each event's ETag and data.
pub open spec fn report_body(start: Seq<char>, end: Seq<char>) -> Seq<char> {
    "<?xml version=\"1.0\" encoding=\"utf-8\"?>\n<c:calendar-query xmlns:d=\"DAV:\" xmlns:c=\"urn:ietf:params:xml:ns:caldav\">\n  <d:prop>\n    <d:getetag/>\n    <c:calendar-data/>\n  </d:prop>\n  <c:filter>\n    <c:comp-filter name=\"VCALENDAR\">\n      <c:comp-filter name=\"VEVENT\">\n        <c:time-range start=\""@
        + start + "\" end=\""@ + end
        + "\"/>\n      </c:comp-filter>\n    </c:comp-filter>\n  </c:filter>\n</c:calendar-query>"@
}

/// The calendar query for a time range (see `report_body`).
pub fn build_report_body(start: &str, end: &str) -> (r: String)
    ensures
        r@ == report_body(start@, end@),
{
    let mut b = "<?xml version=\"1.0\" encoding=\"utf-8\"?>\n<c:calendar-query xmlns:d=\"DAV:\" xmlns:c=\"urn:ietf:params:xml:ns:caldav\">\n  <d:prop>\n    <d:getetag/>\n    <c:calendar-data/>\n  </d:prop>\n  <c:filter>\n    <c:comp-filter name=\"VCALENDAR\">\n      <c:comp-filter name=\"VEVENT\">\n        <c:time-range start=\"".to_owned();
    push_str(&mut b, start);
    push_str(&mut b, "\" end=\"");
    push_str(&mut b, end);
    push_str(&mut b, "\"/>\n      </c:comp-filter>\n    </c:comp-filter>\n  </c:filter>\n</c:calendar-query>");
    b
}

/// The REPORT stamp of a day's midnight: `yyyyMMddT000000Z`.
pub open spec fn midnight_stamp(day: Seq<char>) -> Seq<char> {
    without_dashes(day) + "T000000Z"@
}

fn midnight_of(d: CalendarDate) -> (r: Option<String>)
    ensures
        match day_text(d.day as int) {
            Some(t) => r matches Some(s) && s@ == midnight_stamp(t),
            None => r is None,
        },
{
    match format_ymd(d) {
        Some(t) => {
            let mut s = remove_dashes(t.as_str());
            push_str(&mut s, "T000000Z");
            Some(s)
        },
        None => None,
    }
}

/// The REPORT window of `days` days from `first_day`: the midnight stamps of
/// the first day and of the day after the last; none when a day has no date.
pub fn report_window(first_day: CalendarDate, days: i32) -> (r: Option<(String, String)>)
    requires
        0 <= days <= 7,
    ensures
        first_day.day + days <= i32::MAX && day_text(first_day.day as int) is Some && day_text(first_day.day + days) is Some
            <==> r is Some,
        r matches Some((a, b)) ==> (day_text(first_day.day as int) matches Some(t) && a@ == midnight_stamp(t)) && (day_text(
            first_day.day + days,
        ) matches Some(u) && b@ == midnight_stamp(u)),
{
    if first_day.day > i32::MAX - days {
        return None;
    }
    let last = CalendarDate { day: first_day.day + days };
    let start = match midnight_of(first_day) {
        Some(s) => s,
        None => return None,
    };
    let end = match midnight_of(last) {
        Some(s) => s,
        None => return None,
    };
    Some((start, end))
}

/// The events a REPORT reply yields: a transport failure, a refused status
/// (see `report_status`) and an unreadable answer each fail with their own
/// message; otherwise the events of the answer (see `parse_caldav_report`).
pub fn report_outcome(reply: Result<(u16, String), String>) -> (r: Result<Vec<RawVEvent>, String>)
    ensures
        match reply {
            Err(e) => r matches Err(m) && m@ == "Kalender konnte nicht abgerufen werden: "@ + e@,
            Ok((status, xml)) => if status == 401 {
                r matches Err(m) && m@ == "Authentifizierung fehlgeschlagen. ZEP-Zugangsdaten prüfen."@
            } else if !(200 <= status < 300) {
                r matches Err(m) && m@ == "CalDAV-Server antwortete mit HTTP "@ + crate::text::decimal(status as nat)
            } else {
                match xml_nodes(xml@) {
                    Err(e) => r matches Err(m) && m@ == "Kalenderantwort konnte nicht verarbeitet werden: "@
                        + "XML konnte nicht geparst werden: "@ + e,
                    Ok(nodes) => match report_events(nodes, nodes.len() as int) {
                        Ok(evs) => r matches Ok(v) && v@.map_values(|x: RawVEvent| sourced_view(x)) == evs,
                        Err(e) => r matches Err(m) && m@ == "Kalenderantwort konnte nicht verarbeitet werden: "@ + e,
                    },
                }
            },
        },
{
    let (status, xml) = match reply {
        Ok(x) => x,
        Err(e) => {
            let mut m = "Kalender konnte nicht abgerufen werden: ".to_owned();
            push_str(&mut m, e.as_str());
            return Err(m);
        },
    };
    match super::caldav::report_status(status) {
        Ok(()) => {},
        Err(m) => return Err(m),
    }
    match parse_caldav_report(xml.as_str()) {
        Ok(v) => Ok(v),
        Err(e) => {
            let mut m = "Kalenderantwort konnte nicht verarbeitet werden: ".to_owned();
            push_str(&mut m, e.as_str());
            proof {
                if let Err(x) = xml_nodes(xml@) {
                    assert("Kalenderantwort konnte nicht verarbeitet werden: "@ + ("XML konnte nicht geparst werden: "@ + x)
                        =~= "Kalenderantwort konnte nicht verarbeitet werden: "@ + "XML konnte nicht geparst werden: "@ + x);
                }
            }
            Err(m)
        },
    }
}

} // verus!
