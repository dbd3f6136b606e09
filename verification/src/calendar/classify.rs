//! Classification of raw events: the Daylite project link read from the
//! DESCRIPTION and a stable UID for events that arrive without one.

use super::types::{PendingEvent, RawVEvent};
use crate::text::{
    char_is_alphanumeric, first_line, first_line_spec, is_unicode_alphanumeric, opt_view,
    push_char, push_str, strip_prefix, strip_prefix_spec, trim, trim_chars, trim_spec, trimmed,
};
use vstd::prelude::*;
use vstd::string::StrSliceExecFns;

verus! {

/// The description prefix that marks a planner assignment.
pub open spec fn reference_prefix() -> Seq<char> {
    seq!['d', 'a', 'y', 'l', 'i', 't', 'e', ':']
}

/// The Daylite project reference of an event description: the first line,
/// stripped of surrounding whitespace, byte order marks and zero-width spaces,
/// must start with `daylite:`; the trimmed rest is the reference, if not empty.
pub open spec fn daylite_reference(description: Seq<char>) -> Option<Seq<char>> {
    let line = trim_spec(first_line_spec(description), true);
    match strip_prefix_spec(line, reference_prefix()) {
        Some(rest) => if trimmed(rest).len() > 0 {
            Some(trimmed(rest))
        } else {
            None
        },
        None => None,
    }
}

/// Reads the Daylite project reference out of an event description.
pub fn parse_daylite_reference(description: &str) -> (r: Option<String>)
    ensures
        opt_view(r) == daylite_reference(description@),
{
    let line = first_line(description);
    let line = trim_chars(line.as_str(), true);
    let prefix = "daylite:";
    proof {
        reveal_strlit("daylite:");
        assert(prefix@ =~= reference_prefix());
    }
    match strip_prefix(line.as_str(), prefix) {
        Some(rest) => {
            let reference = trim(rest.as_str());
            if reference.unicode_len() == 0 {
                None
            } else {
                Some(reference)
            }
        },
        None => None,
    }
}

/// Characters a synthesised UID may keep from the summary.
pub open spec fn is_uid_safe(c: char) -> bool {
    is_unicode_alphanumeric(c) || c == '-'
}

/// The summary's UID-safe characters, in order.
pub open spec fn uid_safe_chars(s: Seq<char>) -> Seq<char>
    decreases s.len(),
{
    if s.len() == 0 {
        Seq::empty()
    } else if is_uid_safe(s.last()) {
        uid_safe_chars(s.drop_last()).push(s.last())
    } else {
        uid_safe_chars(s.drop_last())
    }
}

/// At most the first fifty characters.
pub open spec fn first_fifty(s: Seq<char>) -> Seq<char> {
    if s.len() <= 50 { s } else { s.take(50) }
}

/// The UID given to an event without one: `synthetic-{date}-{safe}`, where
/// `safe` is the first fifty UID-safe characters of the summary.
pub open spec fn synthetic_uid(date: Seq<char>, summary: Seq<char>) -> Seq<char> {
    seq!['s', 'y', 'n', 't', 'h', 'e', 't', 'i', 'c', '-'] + date + seq!['-'] + first_fifty(
        uid_safe_chars(summary),
    )
}

/// The UID a classified event carries.
pub open spec fn classified_uid(event: RawVEvent) -> Seq<char> {
    if event.uid@.len() == 0 {
        synthetic_uid(event.dtstart@, event.summary@)
    } else {
        event.uid@
    }
}

fn synthesize_uid(date: &str, summary: &str) -> (r: String)
    ensures
        r@ == synthetic_uid(date@, summary@),
{
    let n = summary.unicode_len();
    let mut safe = String::new();
    let mut i: usize = 0;
    while i < n
        invariant
            n == summary@.len(),
            i <= n,
            safe@ == first_fifty(uid_safe_chars(summary@.take(i as int))),
        decreases n - i,
    {
        let c = summary.get_char(i);
        proof {
            assert(summary@.take(i + 1).drop_last() =~= summary@.take(i as int));
            assert(summary@.take(i + 1).last() == c);
        }
        if char_is_alphanumeric(c) || c == '-' {
            if safe.unicode_len() < 50 {
                push_char(&mut safe, c);
            }
            proof {
                let before = uid_safe_chars(summary@.take(i as int));
                if before.len() >= 50 {
                    assert(before.push(c).take(50) =~= before.take(50));
                }
            }
        }
        i = i + 1;
    }
    assert(summary@.take(n as int) =~= summary@);
    let mut r = String::new();
    push_str(&mut r, "synthetic-");
    push_str(&mut r, date);
    push_char(&mut r, '-');
    push_str(&mut r, safe.as_str());
    proof {
        reveal_strlit("synthetic-");
        assert(r@ =~= synthetic_uid(date@, summary@));
    }
    r
}

/// Classifies a raw event: the UID (synthesised when missing), the date, the
/// summary and times unchanged, and the project reference from the description.
pub fn classify_event(event: &RawVEvent) -> (r: PendingEvent)
    ensures
        r.uid@ == classified_uid(*event),
        r.date@ == event.dtstart@,
        r.summary@ == event.summary@,
        opt_view(r.project_ref) == daylite_reference(event.description@),
        opt_view(r.start_time) == opt_view(event.start_time),
        opt_view(r.end_time) == opt_view(event.end_time),
        r.href@ == event.href@,
        r.order_index == event.order_index,
{
    let uid = if event.uid.unicode_len() == 0 {
        synthesize_uid(event.dtstart.as_str(), event.summary.as_str())
    } else {
        event.uid.clone()
    };
    PendingEvent {
        uid,
        date: event.dtstart.clone(),
        summary: event.summary.clone(),
        project_ref: parse_daylite_reference(event.description.as_str()),
        start_time: clone_opt(&event.start_time),
        end_time: clone_opt(&event.end_time),
        href: event.href.clone(),
        order_index: event.order_index,
    }
}

/// A copy of an optional text.
pub fn clone_opt(o: &Option<String>) -> (r: Option<String>)
    ensures
        opt_view(r) == opt_view(*o),
{
    match o {
        Some(t) => Some(t.clone()),
        None => None,
    }
}

} // verus!
