//! Daily time slots of assignments: which resources may be re-slotted, how a
//! resource is patched, and how a day's window is shared out.

use super::classify::{classify_event, classified_uid, daylite_reference};
use super::types::{PendingEvent, RawVEvent};
use crate::sort::{
    is_perm_sorted_by, is_stable_sort_by, lemma_ordered_permutations_equal, lemma_perm_sorted_map, lemma_stable_sort_same_items,
    ordered_by, sort_by_keys, SortKey,
};
use crate::dates::{compact_day, day_before, parse_compact, pred_day, CalendarDate};
use crate::text::{
    is_property, is_property_spec, lines_from, lines_spec, next_line, opt_view, push_char, push_str,
    starts_with, text_eq,
};
use vstd::prelude::*;
use vstd::string::StrSliceExecFns;

verus! {

/// First minute of the daily assignment window (08:00).
pub const WINDOW_START_MINUTE: u32 = 480;

/// Length of the daily assignment window in minutes (eight hours, to 16:00).
pub const WINDOW_LENGTH_MINUTES: u32 = 480;

/// The iCal property that persists an assignment's position within its day.
pub open spec fn order_property() -> Seq<char> {
    "X-LKR-ORDER"@
}

/// The iCal property that persists an assignment's position within its day.
pub fn order_property_text() -> (r: &'static str)
    ensures
        r@ == order_property(),
{
    "X-LKR-ORDER"
}

/// A folded continuation line starts with a space or a tab.
pub open spec fn is_folded(line: Seq<char>) -> bool {
    line.len() > 0 && (line[0] == ' ' || line[0] == '\t')
}

/// Whether line `i` lies inside a VEVENT: an earlier line opens one and no
/// line in between closes it.
pub open spec fn inside_vevent(ls: Seq<Seq<char>>, i: int) -> bool {
    exists|j: int| 0 <= j < i && #[trigger] ls[j] == "BEGIN:VEVENT"@ && forall|k: int| j < k < i ==> ls[k] != "END:VEVENT"@
}

/// An unfolded property line of a VEVENT (not its BEGIN or END line).
pub open spec fn is_event_property(ls: Seq<Seq<char>>, i: int) -> bool {
    &&& !is_folded(ls[i])
    &&& ls[i] != "BEGIN:VEVENT"@
    &&& ls[i] != "END:VEVENT"@
    &&& inside_vevent(ls, i)
}

/// An event property that a re-slot rewrites: DTSTART, DTEND or the order.
pub open spec fn is_rewritten_line(ls: Seq<Seq<char>>, i: int) -> bool {
    is_event_property(ls, i) && (is_property_spec(ls[i], "DTSTART"@) || is_property_spec(ls[i], "DTEND"@)
        || is_property_spec(ls[i], order_property()))
}

/// An event property that makes a re-slot unsafe: DURATION, RRULE, RDATE or
/// RECURRENCE-ID.
pub open spec fn is_forbidden_line(ls: Seq<Seq<char>>, i: int) -> bool {
    is_event_property(ls, i) && (is_property_spec(ls[i], "DURATION"@) || is_property_spec(ls[i], "RRULE"@)
        || is_property_spec(ls[i], "RDATE"@) || is_property_spec(ls[i], "RECURRENCE-ID"@))
}

/// Whether the last unfolded line before `i` is a rewritten property.
pub open spec fn after_rewritten(ls: Seq<Seq<char>>, i: int) -> bool {
    exists|j: int| 0 <= j < i && #[trigger] is_rewritten_line(ls, j) && forall|k: int| j < k < i ==> is_folded(ls[k])
}

/// A folded line that continues a rewritten property.
pub open spec fn continues_rewritten(ls: Seq<Seq<char>>, i: int) -> bool {
    is_folded(ls[i]) && after_rewritten(ls, i)
}

/// The number of lines below `n` that open a VEVENT.
pub open spec fn vevents_below(ls: Seq<Seq<char>>, n: int) -> nat
    decreases n,
{
    if n <= 0 {
        0
    } else if ls[n - 1] == "BEGIN:VEVENT"@ {
        vevents_below(ls, n - 1) + 1
    } else {
        vevents_below(ls, n - 1)
    }
}

/// The last event property line below `n` that carries the property `name`.
pub open spec fn last_event_property(ls: Seq<Seq<char>>, name: Seq<char>, n: int) -> Option<Seq<char>>
    decreases n,
{
    if n <= 0 {
        None
    } else if is_event_property(ls, n - 1) && is_property_spec(ls[n - 1], name) {
        Some(ls[n - 1])
    } else {
        last_event_property(ls, name, n - 1)
    }
}

/// The value of a property line: everything after its last colon.
pub open spec fn property_value_spec(line: Seq<char>) -> Option<Seq<char>> {
    if exists|i: int| 0 <= i < line.len() && line[i] == ':' {
        let i = choose|i: int|
            0 <= i < line.len() && line[i] == ':' && forall|j: int| i < j < line.len() ==> line[j] != ':';
        Some(line.subrange(i + 1, line.len() as int))
    } else {
        None
    }
}

/// An ASCII character.
pub open spec fn is_ascii_char(c: char) -> bool {
    (c as int) < 128
}

/// The day of a property line: its value's first eight characters read as a
/// compact `yyyyMMdd` date (none when they are not eight ASCII characters).
pub open spec fn property_date_spec(line: Seq<char>) -> Option<int> {
    match property_value_spec(line) {
        Some(v) => if v.len() >= 8 && forall|k: int| 0 <= k < 8 ==> is_ascii_char(#[trigger] v[k]) {
            compact_day(v.take(8))
        } else {
            None
        },
        None => None,
    }
}

/// Whether an event with these DTSTART and DTEND lines covers more than one
/// day. A DATE-valued DTEND is exclusive, so its last day is the day before;
/// a DATE-TIME DTEND (value containing `T`) names the last day itself.
pub open spec fn spans_multiple_days_spec(dtstart: Option<Seq<char>>, dtend: Option<Seq<char>>) -> bool {
    match (dtstart, dtend) {
        (Some(s), Some(e)) => match (property_date_spec(s), property_date_spec(e)) {
            (Some(a), Some(b)) => {
                let timed = match property_value_spec(e) {
                    Some(v) => v.contains('T'),
                    None => false,
                };
                let last = if timed {
                    b
                } else {
                    match day_before(b) {
                        Some(p) => p,
                        None => b,
                    }
                };
                last != a
            },
            _ => false,
        },
        _ => false,
    }
}

/// Whether a resource may have its DTSTART, DTEND and order property
/// rewritten: it has at most one VEVENT; no property of it is a DURATION,
/// RRULE, RDATE or RECURRENCE-ID; no DTSTART, DTEND or order property of it
/// is folded onto a further line; and its last DTSTART and DTEND do not span
/// several days.
pub open spec fn can_patch_slot_spec(raw: Seq<char>) -> bool {
    let ls = lines_spec(raw);
    &&& vevents_below(ls, ls.len() as int) <= 1
    &&& forall|i: int| 0 <= i < ls.len() ==> !#[trigger] is_forbidden_line(ls, i)
    &&& forall|i: int| 0 <= i < ls.len() ==> !#[trigger] continues_rewritten(ls, i)
    &&& !spans_multiple_days_spec(
        last_event_property(ls, "DTSTART"@, ls.len() as int),
        last_event_property(ls, "DTEND"@, ls.len() as int),
    )
}

/// The value of a property line: everything after its last colon.
pub fn property_value(line: &str) -> (r: Option<String>)
    ensures
        opt_view(r) == property_value_spec(line@),
{
    let n = line.unicode_len();
    let mut i: usize = n;
    while i > 0 && line.get_char(i - 1) != ':'
        invariant
            n == line@.len(),
            i <= n,
            forall|j: int| i <= j < n ==> line@[j] != ':',
        decreases i,
    {
        i = i - 1;
    }
    if i == 0 {
        return None;
    }
    proof {
        let w = choose|w: int|
            0 <= w < line@.len() && line@[w] == ':' && forall|j: int| w < j < line@.len() ==> line@[j] != ':';
        assert(0 <= i - 1 < line@.len() && line@[i - 1] == ':');
        if w < i - 1 {
            assert(line@[i - 1] != ':');
        } else if w > i - 1 {
        }
    }
    Some(line.substring_char(i, n).to_owned())
}

/// The day a property line names (see `property_date_spec`).
pub fn property_date(line: &str) -> (r: Option<CalendarDate>)
    ensures
        match r {
            Some(d) => property_date_spec(line@) == Some(d.day as int),
            None => property_date_spec(line@) is None,
        },
{
    let value = match property_value(line) {
        Some(v) => v,
        None => return None,
    };
    if value.as_str().unicode_len() < 8 {
        return None;
    }
    let mut k: usize = 0;
    while k < 8
        invariant
            value@.len() >= 8,
            property_value_spec(line@) == Some(value@),
            k <= 8,
            forall|j: int| 0 <= j < k ==> is_ascii_char(#[trigger] value@[j]),
        decreases 8 - k,
    {
        let c = value.as_str().get_char(k);
        if (c as u32) >= 128 {
            assert(value@[k as int] == c);
            assert(!((c as int) < 128));
            assert(!is_ascii_char(value@[k as int]));
            assert(property_value_spec(line@) == Some(value@));
            return None;
        }
        k = k + 1;
    }
    let head = value.as_str().substring_char(0, 8);
    assert(head@ =~= value@.take(8));
    parse_compact(head)
}

/// Whether an event with these DTSTART and DTEND lines covers more than one day.
pub fn spans_multiple_days(dtstart: &Option<String>, dtend: &Option<String>) -> (r: bool)
    ensures
        r == spans_multiple_days_spec(opt_view(*dtstart), opt_view(*dtend)),
{
    let (s, e) = match (dtstart, dtend) {
        (Some(s), Some(e)) => (s, e),
        _ => return false,
    };
    let (a, b) = match (property_date(s.as_str()), property_date(e.as_str())) {
        (Some(a), Some(b)) => (a, b),
        _ => return false,
    };
    let timed = match property_value(e.as_str()) {
        Some(v) => crate::text::contains_char(v.as_str(), 'T'),
        None => false,
    };
    let last = if timed {
        b
    } else {
        match pred_day(b) {
            Some(p) => p,
            None => b,
        }
    };
    last.day != a.day
}

proof fn lemma_inside_step(ls: Seq<Seq<char>>, k: int)
    requires
        0 <= k < ls.len(),
    ensures
        inside_vevent(ls, k + 1) == (if ls[k] == "BEGIN:VEVENT"@ {
            true
        } else if ls[k] == "END:VEVENT"@ {
            false
        } else {
            inside_vevent(ls, k)
        }),
{
    if ls[k] == "BEGIN:VEVENT"@ {
        assert(forall|m: int| k < m < k + 1 ==> ls[m] != "END:VEVENT"@);
        assert(inside_vevent(ls, k + 1));
    } else if ls[k] == "END:VEVENT"@ {
        if inside_vevent(ls, k + 1) {
            let j = choose|j: int|
                0 <= j < k + 1 && #[trigger] ls[j] == "BEGIN:VEVENT"@ && forall|m: int| j < m < k + 1 ==> ls[m] != "END:VEVENT"@;
            assert(j != k);
            assert(ls[k] != "END:VEVENT"@);
        }
    } else {
        if inside_vevent(ls, k) {
            let j = choose|j: int|
                0 <= j < k && #[trigger] ls[j] == "BEGIN:VEVENT"@ && forall|m: int| j < m < k ==> ls[m] != "END:VEVENT"@;
            assert(forall|m: int| j < m < k + 1 ==> ls[m] != "END:VEVENT"@);
            assert(inside_vevent(ls, k + 1));
        }
        if inside_vevent(ls, k + 1) {
            let j = choose|j: int|
                0 <= j < k + 1 && #[trigger] ls[j] == "BEGIN:VEVENT"@ && forall|m: int| j < m < k + 1 ==> ls[m] != "END:VEVENT"@;
            assert(j != k);
            assert(forall|m: int| j < m < k ==> ls[m] != "END:VEVENT"@);
            assert(inside_vevent(ls, k));
        }
    }
}

proof fn lemma_after_step(ls: Seq<Seq<char>>, k: int)
    requires
        0 <= k < ls.len(),
    ensures
        after_rewritten(ls, k + 1) == (if is_folded(ls[k]) { after_rewritten(ls, k) } else { is_rewritten_line(ls, k) }),
{
    if is_folded(ls[k]) {
        if after_rewritten(ls, k + 1) {
            let j = choose|j: int|
                0 <= j < k + 1 && #[trigger] is_rewritten_line(ls, j) && forall|m: int| j < m < k + 1 ==> is_folded(ls[m]);
            assert(j != k);
            assert(forall|m: int| j < m < k ==> is_folded(ls[m]));
            assert(after_rewritten(ls, k));
        }
        if after_rewritten(ls, k) {
            let j = choose|j: int|
                0 <= j < k && #[trigger] is_rewritten_line(ls, j) && forall|m: int| j < m < k ==> is_folded(ls[m]);
            assert(forall|m: int| j < m < k + 1 ==> is_folded(ls[m]));
            assert(after_rewritten(ls, k + 1));
        }
    } else {
        if after_rewritten(ls, k + 1) {
            let j = choose|j: int|
                0 <= j < k + 1 && #[trigger] is_rewritten_line(ls, j) && forall|m: int| j < m < k + 1 ==> is_folded(ls[m]);
            if j < k {
                assert(is_folded(ls[k]));
            }
        }
        if is_rewritten_line(ls, k) {
            assert(forall|m: int| k < m < k + 1 ==> is_folded(ls[m]));
            assert(after_rewritten(ls, k + 1));
        }
    }
}

/// No line carries both DTSTART and DTEND.
proof fn lemma_start_is_not_end(line: Seq<char>)
    requires
        is_property_spec(line, "DTSTART"@),
    ensures
        !is_property_spec(line, "DTEND"@),
{
    reveal_strlit("DTSTART");
    reveal_strlit("DTEND");
    assert(line[2] == "DTSTART"@[2]);
    if is_property_spec(line, "DTEND"@) {
        assert(line[2] == "DTEND"@[2]);
    }
}

/// Whether the resource may be re-slotted (see `can_patch_slot_spec`).
pub fn can_patch_slot(raw_ical: &str) -> (r: bool)
    ensures
        r == can_patch_slot_spec(raw_ical@),
{
    let n = raw_ical.unicode_len();
    let ghost ls = lines_spec(raw_ical@);
    let mut in_vevent = false;
    let mut vevents: u64 = 0;
    let mut after = false;
    let mut dtstart: Option<String> = None;
    let mut dtend: Option<String> = None;
    let mut from: usize = 0;
    let ghost mut k: int = 0;
    proof {
        reveal_strlit("BEGIN:VEVENT");
        reveal_strlit("END:VEVENT");
    }
    assert(lines_from(raw_ical@, 0) =~= ls.skip(0));
    while from < n
        invariant
            n == raw_ical@.len(),
            ls == lines_spec(raw_ical@),
            from <= n,
            0 <= k <= ls.len(),
            lines_from(raw_ical@, from as int) == ls.skip(k),
            vevents <= from,
            vevents == vevents_below(ls, k),
            in_vevent == inside_vevent(ls, k),
            after == after_rewritten(ls, k),
            opt_view(dtstart) == last_event_property(ls, "DTSTART"@, k),
            opt_view(dtend) == last_event_property(ls, "DTEND"@, k),
            forall|i: int| 0 <= i < k ==> !#[trigger] is_forbidden_line(ls, i),
            forall|i: int| 0 <= i < k ==> !#[trigger] continues_rewritten(ls, i),
            "BEGIN:VEVENT"@[0] == 'B',
            "END:VEVENT"@[0] == 'E',
        decreases n - from,
    {
        let (line, next) = next_line(raw_ical, from);
        proof {
            assert(ls.skip(k).len() > 0);
            assert(ls.skip(k)[0] == ls[k]);
            assert(line@ == ls[k]);
            assert(ls.skip(k + 1) =~= ls.skip(k).drop_first());
            assert((seq![line@] + lines_from(raw_ical@, next as int)).drop_first() =~= lines_from(raw_ical@, next as int));
            lemma_inside_step(ls, k);
            lemma_after_step(ls, k);
        }
        let l = line.as_str();
        let folded = l.unicode_len() > 0 && (l.get_char(0) == ' ' || l.get_char(0) == '\t');
        assert(folded == is_folded(ls[k]));
        if folded {
            if after {
                assert(continues_rewritten(ls, k));
                return false;
            }
            assert(ls[k] != "BEGIN:VEVENT"@ && ls[k] != "END:VEVENT"@);
        } else {
            after = false;
            if text_eq(l, "BEGIN:VEVENT") {
                in_vevent = true;
                vevents = vevents + 1;
            } else if text_eq(l, "END:VEVENT") {
                in_vevent = false;
            } else if in_vevent {
                assert(is_event_property(ls, k));
                if is_property(l, "DURATION") || is_property(l, "RRULE") || is_property(l, "RDATE")
                    || is_property(l, "RECURRENCE-ID") {
                    assert(is_forbidden_line(ls, k));
                    return false;
                }
                if is_property(l, "DTSTART") {
                    proof {
                        lemma_start_is_not_end(ls[k]);
                    }
                    dtstart = Some(line);
                    after = true;
                } else if is_property(l, "DTEND") {
                    dtend = Some(line);
                    after = true;
                } else if is_property(l, order_property_text()) {
                    after = true;
                }
            }
        }
        from = next;
        proof {
            k = k + 1;
        }
    }
    proof {
        assert(lines_from(raw_ical@, from as int) =~= Seq::<Seq<char>>::empty());
        assert(k == ls.len());
    }
    vevents <= 1 && !spans_multiple_days(&dtstart, &dtend)
}

/// The two-digit text of `n < 100`.
pub open spec fn two_digits(n: nat) -> Seq<char> {
    seq![crate::text::digit_char(n / 10), crate::text::digit_char(n % 10)]
}

/// `HH:MM` of a minute of the day.
pub open spec fn hhmm(m: nat) -> Seq<char> {
    two_digits(m / 60) + seq![':'] + two_digits(m % 60)
}

/// `HHMMSS` of a minute of the day (seconds are zero).
pub open spec fn hhmmss(m: nat) -> Seq<char> {
    two_digits(m / 60) + two_digits(m % 60) + seq!['0', '0']
}

fn push_two_digits(s: &mut String, n: u32)
    requires
        n < 100,
    ensures
        final(s)@ == old(s)@ + two_digits(n as nat),
{
    let tens = crate::text::u64_to_text((n / 10) as u64);
    let ones = crate::text::u64_to_text((n % 10) as u64);
    push_str(s, tens.as_str());
    push_str(s, ones.as_str());
    assert(final(s)@ =~= old(s)@ + two_digits(n as nat));
}

/// `HH:MM` of a minute of the day (`NaiveTime` formatted with `%H:%M`).
pub fn format_hhmm(m: u32) -> (r: String)
    requires
        m < 6000,
    ensures
        r@ == hhmm(m as nat),
{
    let mut r = String::new();
    push_two_digits(&mut r, m / 60);
    push_char(&mut r, ':');
    push_two_digits(&mut r, m % 60);
    assert(r@ =~= hhmm(m as nat));
    r
}

fn push_hhmmss(s: &mut String, m: u32)
    requires
        m < 6000,
    ensures
        final(s)@ == old(s)@ + hhmmss(m as nat),
{
    push_two_digits(s, m / 60);
    push_two_digits(s, m % 60);
    push_str(s, "00");
    proof {
        reveal_strlit("00");
    }
    assert(final(s)@ =~= old(s)@ + hhmmss(m as nat));
}

/// `s` without its `-` characters (`str::replace('-', "")`).
pub open spec fn without_dashes(s: Seq<char>) -> Seq<char>
    decreases s.len(),
{
    if s.len() == 0 {
        Seq::empty()
    } else if s.last() == '-' {
        without_dashes(s.drop_last())
    } else {
        without_dashes(s.drop_last()).push(s.last())
    }
}

/// `s` without its `-` characters.
pub fn remove_dashes(s: &str) -> (r: String)
    ensures
        r@ == without_dashes(s@),
{
    let n = s.unicode_len();
    let mut r = String::new();
    let mut i: usize = 0;
    while i < n
        invariant
            n == s@.len(),
            i <= n,
            r@ == without_dashes(s@.take(i as int)),
        decreases n - i,
    {
        let c = s.get_char(i);
        proof {
            assert(s@.take(i + 1).drop_last() =~= s@.take(i as int));
        }
        if c != '-' {
            push_char(&mut r, c);
        }
        i = i + 1;
    }
    assert(s@.take(n as int) =~= s@);
    r
}

/// `DTSTART:{yyyyMMdd}T{HHMMSS}` for a floating local time.
pub open spec fn dtstart_line(date: Seq<char>, m: nat) -> Seq<char> {
    "DTSTART:"@ + without_dashes(date) + seq!['T'] + hhmmss(m)
}

/// `DTEND:{yyyyMMdd}T{HHMMSS}` for a floating local time.
pub open spec fn dtend_line(date: Seq<char>, m: nat) -> Seq<char> {
    "DTEND:"@ + without_dashes(date) + seq!['T'] + hhmmss(m)
}

/// `X-LKR-ORDER:{index}`.
pub open spec fn order_line(index: nat) -> Seq<char> {
    order_property() + seq![':'] + crate::text::decimal(index)
}

/// A DTSTART or DTEND line: `prefix`, the compact date, `T` and `HHMMSS`.
pub(crate) fn build_time_line_text(prefix: &str, date: &str, m: u32) -> (r: String)
    requires
        m < 6000,
    ensures
        r@ == prefix@ + without_dashes(date@) + seq!['T'] + hhmmss(m as nat),
{
    let mut r = prefix.to_owned();
    let compact = remove_dashes(date);
    push_str(&mut r, compact.as_str());
    push_char(&mut r, 'T');
    push_hhmmss(&mut r, m);
    assert(r@ =~= prefix@ + without_dashes(date@) + seq!['T'] + hhmmss(m as nat));
    r
}

/// The order property line of a position.
pub(crate) fn build_order_line_text(index: u32) -> (r: String)
    ensures
        r@ == order_line(index as nat),
{
    let mut r = order_property_text().to_owned();
    push_char(&mut r, ':');
    let digits = crate::text::u64_to_text(index as u64);
    push_str(&mut r, digits.as_str());
    assert(r@ =~= order_line(index as nat));
    r
}

/// State of the rewrite of a resource's lines.
#[derive(Clone, Copy)]
pub struct PatchState {
    pub in_vevent: bool,
    pub wrote_dtend: bool,
    pub wrote_order: bool,
}

/// Whether the line starts a DTSTART property (`DTSTART:` or `DTSTART;`).
pub open spec fn is_dtstart_line(line: Seq<char>) -> bool {
    "DTSTART:"@.is_prefix_of(line) || "DTSTART;"@.is_prefix_of(line)
}

/// Whether the line starts a DTEND property (`DTEND:` or `DTEND;`).
pub open spec fn is_dtend_line(line: Seq<char>) -> bool {
    "DTEND:"@.is_prefix_of(line) || "DTEND;"@.is_prefix_of(line)
}

/// The lines one input line becomes, and the next state.
pub open spec fn patch_step(st: PatchState, line: Seq<char>, start: Seq<char>, end: Seq<char>, order: Seq<char>) -> (
    PatchState,
    Seq<Seq<char>>,
) {
    if line == "BEGIN:VEVENT"@ {
        (PatchState { in_vevent: true, ..st }, seq![line])
    } else if line == "END:VEVENT"@ {
        (
            PatchState { in_vevent: false, ..st },
            (if st.in_vevent && !st.wrote_dtend { seq![end] } else { Seq::empty() }) + (if st.in_vevent
                && !st.wrote_order { seq![order] } else { Seq::empty() }) + seq![line],
        )
    } else if st.in_vevent && is_dtstart_line(line) {
        (st, seq![start])
    } else if st.in_vevent && is_dtend_line(line) {
        (PatchState { wrote_dtend: true, ..st }, seq![end])
    } else if st.in_vevent && is_property_spec(line, order_property()) {
        (PatchState { wrote_order: true, ..st }, seq![order])
    } else {
        (st, seq![line])
    }
}

/// The rewritten lines.
pub open spec fn patch_lines(ls: Seq<Seq<char>>, st: PatchState, start: Seq<char>, end: Seq<char>, order: Seq<char>) -> Seq<
    Seq<char>,
>
    decreases ls.len(),
{
    if ls.len() == 0 {
        Seq::empty()
    } else {
        patch_step(st, ls[0], start, end, order).1 + patch_lines(
            ls.drop_first(),
            patch_step(st, ls[0], start, end, order).0,
            start,
            end,
            order,
        )
    }
}

/// Each line followed by `\r\n`.
pub open spec fn crlf_terminated(ls: Seq<Seq<char>>) -> Seq<char>
    decreases ls.len(),
{
    if ls.len() == 0 {
        Seq::empty()
    } else {
        crlf_terminated(ls.drop_last()) + ls.last() + seq!['\r', '\n']
    }
}

/// The lines joined by `\r\n` with a final `\r\n` (`lines.join("\r\n") + "\r\n"`).
pub open spec fn crlf_joined(ls: Seq<Seq<char>>) -> Seq<char> {
    if ls.len() == 0 { seq!['\r', '\n'] } else { crlf_terminated(ls) }
}

/// A resource re-slotted to `start..end` on `date` at position `order_index`:
/// within the VEVENT, DTSTART and DTEND lines are replaced by floating local
/// times and the order property by the new position; a missing DTEND or order
/// property is inserted before END:VEVENT; every other line is kept as it is.
pub open spec fn patch_event_slot_spec(raw: Seq<char>, date: Seq<char>, start: nat, end: nat, order_index: nat) -> Seq<char> {
    crlf_joined(
        patch_lines(
            lines_spec(raw),
            PatchState { in_vevent: false, wrote_dtend: false, wrote_order: false },
            dtstart_line(date, start),
            dtend_line(date, end),
            order_line(order_index),
        ),
    )
}

fn emit_line(out: &mut String, emitted: Ghost<Seq<Seq<char>>>, line: &str) -> (r: Ghost<Seq<Seq<char>>>)
    requires
        old(out)@ == crlf_terminated(emitted@),
    ensures
        r@ == emitted@.push(line@),
        final(out)@ == crlf_terminated(r@),
{
    push_str(out, line);
    push_str(out, "\r\n");
    proof {
        reveal_strlit("\r\n");
        assert(emitted@.push(line@).drop_last() =~= emitted@);
        assert(final(out)@ =~= crlf_terminated(emitted@.push(line@)));
    }
    Ghost(emitted@.push(line@))
}

/// Emits what one input line becomes and returns the next state.
fn patch_apply(
    out: &mut String,
    emitted: Ghost<Seq<Seq<char>>>,
    st: PatchState,
    l: &str,
    dtstart: &str,
    dtend: &str,
    order: &str,
) -> (r: (PatchState, Ghost<Seq<Seq<char>>>))
    requires
        old(out)@ == crlf_terminated(emitted@),
    ensures
        r.0 == patch_step(st, l@, dtstart@, dtend@, order@).0,
        r.1@ == emitted@ + patch_step(st, l@, dtstart@, dtend@, order@).1,
        final(out)@ == crlf_terminated(r.1@),
{
    let ghost step = patch_step(st, l@, dtstart@, dtend@, order@);
    if text_eq(l, "BEGIN:VEVENT") {
        let e = emit_line(out, emitted, l);
        assert(e@ =~= emitted@ + step.1);
        (PatchState { in_vevent: true, ..st }, e)
    } else if text_eq(l, "END:VEVENT") {
        let mut e = emitted;
        if st.in_vevent && !st.wrote_dtend {
            e = emit_line(out, e, dtend);
        }
        if st.in_vevent && !st.wrote_order {
            e = emit_line(out, e, order);
        }
        e = emit_line(out, e, l);
        assert(e@ =~= emitted@ + step.1);
        (PatchState { in_vevent: false, ..st }, e)
    } else if st.in_vevent && (starts_with(l, "DTSTART:") || starts_with(l, "DTSTART;")) {
        let e = emit_line(out, emitted, dtstart);
        assert(e@ =~= emitted@ + step.1);
        (st, e)
    } else if st.in_vevent && (starts_with(l, "DTEND:") || starts_with(l, "DTEND;")) {
        let e = emit_line(out, emitted, dtend);
        assert(e@ =~= emitted@ + step.1);
        (PatchState { wrote_dtend: true, ..st }, e)
    } else if st.in_vevent && is_property(l, order_property_text()) {
        let e = emit_line(out, emitted, order);
        assert(e@ =~= emitted@ + step.1);
        (PatchState { wrote_order: true, ..st }, e)
    } else {
        let e = emit_line(out, emitted, l);
        assert(e@ =~= emitted@ + step.1);
        (st, e)
    }
}

/// Rewrites a resource's slot (see `patch_event_slot_spec`).
pub fn patch_event_slot(raw_ical: &str, date: &str, start: u32, end: u32, order_index: u32) -> (r: String)
    requires
        start < 6000,
        end < 6000,
    ensures
        r@ == patch_event_slot_spec(raw_ical@, date@, start as nat, end as nat, order_index as nat),
{
    let dtstart = build_time_line_text("DTSTART:", date, start);
    let dtend = build_time_line_text("DTEND:", date, end);
    let order = build_order_line_text(order_index);
    let ghost s_l = dtstart@;
    let ghost e_l = dtend@;
    let ghost o_l = order@;
    let ghost all = patch_lines(
        lines_spec(raw_ical@),
        PatchState { in_vevent: false, wrote_dtend: false, wrote_order: false },
        s_l,
        e_l,
        o_l,
    );
    let n = raw_ical.unicode_len();
    let mut out = String::new();
    let mut emitted: Ghost<Seq<Seq<char>>> = Ghost(Seq::empty());
    let mut in_vevent = false;
    let mut wrote_dtend = false;
    let mut wrote_order = false;
    let mut from: usize = 0;
    assert(lines_spec(raw_ical@) == lines_from(raw_ical@, 0));
    assert(out@ =~= crlf_terminated(emitted@));
    while from < n
        invariant
            n == raw_ical@.len(),
            from <= n,
            s_l == dtstart@,
            e_l == dtend@,
            o_l == order@,
            out@ == crlf_terminated(emitted@),
            all == emitted@ + patch_lines(
                lines_from(raw_ical@, from as int),
                PatchState { in_vevent, wrote_dtend, wrote_order },
                s_l,
                e_l,
                o_l,
            ),
        decreases n - from,
    {
        let st = PatchState { in_vevent, wrote_dtend, wrote_order };
        let (line, next) = next_line(raw_ical, from);
        let ghost rest = lines_from(raw_ical@, next as int);
        let ghost step = patch_step(st, line@, s_l, e_l, o_l);
        proof {
            assert((seq![line@] + rest)[0] == line@);
            assert((seq![line@] + rest).drop_first() =~= rest);
        }
        let (nst, e2) = patch_apply(&mut out, emitted, st, line.as_str(), dtstart.as_str(), dtend.as_str(), order.as_str());
        emitted = e2;
        in_vevent = nst.in_vevent;
        wrote_dtend = nst.wrote_dtend;
        wrote_order = nst.wrote_order;
        from = next;
    }
    assert(lines_from(raw_ical@, from as int) =~= Seq::<Seq<char>>::empty());
    assert(all =~= emitted@);
    if out.as_str().unicode_len() == 0 {
        proof {
            if emitted@.len() > 0 {
                assert(crlf_terminated(emitted@).len() >= 2);
            }
        }
        push_str(&mut out, "\r\n");
        proof {
            reveal_strlit("\r\n");
            assert(out@ =~= seq!['\r', '\n']);
        }
    } else {
        assert(emitted@.len() > 0);
    }
    out
}


/// The first and last minute of the daily window (08:00 to 16:00).
pub fn full_window() -> (r: (u32, u32))
    ensures
        r == (WINDOW_START_MINUTE, (WINDOW_START_MINUTE + WINDOW_LENGTH_MINUTES) as u32),
{
    (WINDOW_START_MINUTE, WINDOW_START_MINUTE + WINDOW_LENGTH_MINUTES)
}

/// Minute of boundary `i` when the window is shared by `n` slots:
/// `start + (i * length) / n`.
pub open spec fn slot_boundary(i: int, n: int) -> int {
    WINDOW_START_MINUTE as int + (i * WINDOW_LENGTH_MINUTES as int) / n
}

/// The view of an allocation entry: its order index and UID.
pub open spec fn entry_view(e: (u32, String)) -> (u32, Seq<char>) {
    (e.0, e.1@)
}

/// The sort key of an entry: the order index, then the UID.
pub open spec fn entry_key(e: (u32, Seq<char>)) -> (u64, Seq<char>, u64) {
    (e.0 as u64, e.1, 0u64)
}

/// The view of an allocated slot: UID, first minute, end minute.
pub open spec fn slot_view(s: (String, u32, u32)) -> (Seq<char>, u32, u32) {
    (s.0@, s.1, s.2)
}

/// The UIDs of entries in their order.
pub open spec fn entry_uids(entries: Seq<(u32, Seq<char>)>) -> Seq<Seq<char>> {
    entries.map_values(|e: (u32, Seq<char>)| e.1)
}

/// `sorted` is `entries` sorted by order index, then UID.
pub open spec fn sorts_entries(entries: Seq<(u32, Seq<char>)>, sorted: Seq<(u32, Seq<char>)>) -> bool {
    is_stable_sort_by(entries, sorted, |e: (u32, Seq<char>)| entry_key(e))
}

/// `slots` shares the window among `entries` sorted by order index and UID.
pub open spec fn is_allocation(entries: Seq<(u32, Seq<char>)>, slots: Seq<(Seq<char>, u32, u32)>) -> bool {
    exists|sorted: Seq<(u32, Seq<char>)>| #[trigger] sorts_entries(entries, sorted) && is_slotting(entry_uids(sorted), slots)
}

/// `slots` gives the `i`-th of `uids` the `i`-th share of the window.
pub open spec fn is_slotting(uids: Seq<Seq<char>>, slots: Seq<(Seq<char>, u32, u32)>) -> bool {
    &&& slots.len() == uids.len()
    &&& forall|i: int|
        0 <= i < uids.len() ==> (#[trigger] slots[i]).0 == uids[i] && slots[i].1 == slot_boundary(i, uids.len() as int)
            && slots[i].2 == slot_boundary(i + 1, uids.len() as int)
}

proof fn lemma_boundary_in_window(i: int, n: int)
    requires
        0 <= i <= n,
        0 < n,
    ensures
        WINDOW_START_MINUTE <= slot_boundary(i, n) <= WINDOW_START_MINUTE + WINDOW_LENGTH_MINUTES,
        i == 0 ==> slot_boundary(i, n) == WINDOW_START_MINUTE,
        i == n ==> slot_boundary(i, n) == WINDOW_START_MINUTE + WINDOW_LENGTH_MINUTES,
{
    assert(0 <= (i * 480) / n <= 480) by (nonlinear_arith)
        requires
            0 <= i <= n,
            0 < n,
    ;
    assert(i == n ==> (i * 480) / n == 480) by (nonlinear_arith)
        requires
            0 < n,
    ;
}

/// The minute of boundary `i` of `n`.
fn boundary(i: u64, n: u64) -> (r: u32)
    requires
        i <= n,
        0 < n,
        n <= u32::MAX,
    ensures
        r == slot_boundary(i as int, n as int),
{
    proof {
        lemma_boundary_in_window(i as int, n as int);
    }
    assert(i * 480 <= 480 * 0xffff_ffff) by (nonlinear_arith)
        requires
            i <= n,
            n <= 0xffff_ffff,
    ;
    let share = (i * 480) / n;
    WINDOW_START_MINUTE + share as u32
}

/// Shares the window among the entries, sorted by order index with the UID
/// breaking ties: boundary `i` sits at `start + (i * length) / n`, so the first
/// slot starts at 08:00, the last ends at 16:00 and adjacent slots meet.
pub fn allocate_slots(entries: &Vec<(u32, String)>) -> (r: Vec<(String, u32, u32)>)
    requires
        entries@.len() <= u32::MAX,
    ensures
        is_allocation(entries@.map_values(|e: (u32, String)| entry_view(e)), r@.map_values(|s: (String, u32, u32)| slot_view(s))),
{
    let n = entries.len();
    let ghost key = |e: (u32, String)| entry_key(entry_view(e));
    let mut items: Vec<(u32, String)> = Vec::new();
    let mut keys: Vec<SortKey> = Vec::new();
    let mut i: usize = 0;
    while i < n
        invariant
            n == entries@.len(),
            i <= n,
            items@ == entries@.take(i as int),
            keys@.len() == i,
            key == (|e: (u32, String)| entry_key(entry_view(e))),
            forall|j: int| 0 <= j < i ==> #[trigger] keys@[j]@ == key(items@[j]),
        decreases n - i,
    {
        let idx = entries[i].0;
        let uid = entries[i].1.clone();
        keys.push(SortKey { major: idx as u64, text: entries[i].1.clone(), minor: 0 });
        items.push((idx, uid));
        i = i + 1;
        assert(items@ =~= entries@.take(i as int));
    }
    assert(items@ =~= entries@);
    let sorted = sort_by_keys(items, keys, Ghost(key));
    let ghost sorted_v = sorted@.map_values(|e: (u32, String)| entry_view(e));
    proof {
        let perm = choose|perm: Seq<int>| is_perm_sorted_by(entries@, sorted@, perm, key);
        lemma_perm_sorted_map(entries@, sorted@, perm, key, |e: (u32, String)| entry_view(e), |e: (u32, Seq<char>)| entry_key(e));
    }
    let mut r: Vec<(String, u32, u32)> = Vec::new();
    let mut j: usize = 0;
    while j < n
        invariant
            n == sorted@.len(),
            n <= u32::MAX,
            j <= n,
            r@.len() == j,
            forall|k: int|
                0 <= k < j ==> (#[trigger] r@[k]).0@ == sorted@[k].1@ && r@[k].1 == slot_boundary(k, n as int)
                    && r@[k].2 == slot_boundary(k + 1, n as int),
        decreases n - j,
    {
        let start = boundary(j as u64, n as u64);
        let end = boundary(j as u64 + 1, n as u64);
        r.push((sorted[j].1.clone(), start, end));
        j = j + 1;
    }
    proof {
        let uids = entry_uids(sorted_v);
        let rv = r@.map_values(|s: (String, u32, u32)| slot_view(s));
        assert forall|k: int| 0 <= k < uids.len() implies (#[trigger] rv[k]).0 == uids[k] && rv[k].1 == slot_boundary(k, uids.len() as int)
            && rv[k].2 == slot_boundary(k + 1, uids.len() as int) by {
            assert(rv[k] == slot_view(r@[k]));
        }
        assert(is_slotting(uids, rv));
        assert(sorts_entries(entries@.map_values(|e: (u32, String)| entry_view(e)), sorted_v));
    }
    r
}

/// The allocation starts the first slot at 08:00, ends the last one at 16:00,
/// lets each slot end where the next one starts, and gives no slot a negative
/// length.
pub proof fn law_slots_tile_the_window(uids: Seq<Seq<char>>, slots: Seq<(Seq<char>, u32, u32)>)
    requires
        is_slotting(uids, slots),
        uids.len() > 0,
    ensures
        slots[0].1 == WINDOW_START_MINUTE,
        slots[slots.len() - 1].2 == WINDOW_START_MINUTE + WINDOW_LENGTH_MINUTES,
        forall|i: int| 0 <= i < slots.len() - 1 ==> #[trigger] slots[i].2 == slots[i + 1].1,
        forall|i: int| 0 <= i < slots.len() ==> (#[trigger] slots[i]).1 <= slots[i].2,
{
    let n = uids.len() as int;
    assert(slots[0].1 == slot_boundary(0, n));
    lemma_boundary_in_window(0, n);
    assert(slots[n - 1].2 == slot_boundary(n, n));
    lemma_boundary_in_window(n, n);
    assert forall|i: int| 0 <= i < slots.len() - 1 implies #[trigger] slots[i].2 == slots[i + 1].1 by {
        assert(slots[i].2 == slot_boundary(i + 1, n));
        assert(slots[i + 1].1 == slot_boundary(i + 1, n));
    }
    assert forall|i: int| 0 <= i < slots.len() implies (#[trigger] slots[i]).1 <= slots[i].2 by {
        assert((i * 480) / n <= ((i + 1) * 480) / n) by (nonlinear_arith)
            requires
                0 <= i,
                0 < n,
        ;
    }
}


/// The allocation does not depend on the order the entries come in: two lists
/// of the same entries are given the same slots.
pub proof fn law_allocation_ignores_input_order(
    a: Seq<(u32, Seq<char>)>,
    b: Seq<(u32, Seq<char>)>,
    slots_a: Seq<(Seq<char>, u32, u32)>,
    slots_b: Seq<(Seq<char>, u32, u32)>,
)
    requires
        a.to_multiset() == b.to_multiset(),
        is_allocation(a, slots_a),
        is_allocation(b, slots_b),
    ensures
        slots_a == slots_b,
{
    let key = |e: (u32, Seq<char>)| entry_key(e);
    let sa = choose|sorted: Seq<(u32, Seq<char>)>| #[trigger] sorts_entries(a, sorted) && is_slotting(entry_uids(sorted), slots_a);
    let sb = choose|sorted: Seq<(u32, Seq<char>)>| #[trigger] sorts_entries(b, sorted) && is_slotting(entry_uids(sorted), slots_b);
    lemma_stable_sort_same_items(a, sa, key);
    lemma_stable_sort_same_items(b, sb, key);
    let pa = choose|perm: Seq<int>| is_perm_sorted_by(a, sa, perm, key);
    let pb = choose|perm: Seq<int>| is_perm_sorted_by(b, sb, perm, key);
    assert(ordered_by(sa, key));
    assert(ordered_by(sb, key));
    assert forall|x: (u32, Seq<char>), y: (u32, Seq<char>)| #[trigger] key(x) == #[trigger] key(y) implies x == y by {
        assert(entry_key(x).0 == entry_key(y).0);
        assert(entry_key(x).1 == entry_key(y).1);
    }
    lemma_ordered_permutations_equal(sa, sb, key);
    let ua = entry_uids(sa);
    assert(ua == entry_uids(sb));
    assert forall|i: int| 0 <= i < slots_a.len() implies #[trigger] slots_a[i] == slots_b[i] by {
        assert(slots_a[i].0 == ua[i]);
        assert(slots_b[i].0 == ua[i]);
    }
    assert(slots_a =~= slots_b);
}

/// An assignment singled out of the day, either because the caller is about to
/// write it itself or because it is being moved to a new position in the day.
pub struct DayPlacement {
    pub uid: String,
    /// Requested position among the day's assignments; none keeps the event
    /// where it already sits, or appends it when the day does not hold it yet.
    pub order_index: Option<u32>,
    /// Set when the caller writes this event itself, so the plan leaves it out.
    pub written_by_caller: bool,
}

/// The UID and requested position of a placement.
pub open spec fn placement_view(p: Option<DayPlacement>) -> Option<(Seq<char>, Option<u32>)> {
    match p {
        Some(p) => Some((p.uid@, p.order_index)),
        None => None,
    }
}

/// The rank of an assignment: its persisted order index (unindexed ones last)
/// and its UID.
pub open spec fn rank_entry(p: PendingEvent) -> (u32, Seq<char>) {
    (
        match p.order_index {
            Some(i) => i,
            None => u32::MAX,
        },
        p.uid@,
    )
}

/// `uids` without the occurrences of `u`.
pub open spec fn without(uids: Seq<Seq<char>>, u: Seq<char>) -> Seq<Seq<char>>
    decreases uids.len(),
{
    if uids.len() == 0 {
        Seq::empty()
    } else if uids.last() == u {
        without(uids.drop_last(), u)
    } else {
        without(uids.drop_last(), u).push(uids.last())
    }
}

/// Where the last occurrence of `u` stands among the other UIDs.
pub open spec fn last_position(uids: Seq<Seq<char>>, u: Seq<char>) -> Option<nat>
    decreases uids.len(),
{
    if uids.len() == 0 {
        None
    } else if uids.last() == u {
        Some(without(uids.drop_last(), u).len())
    } else {
        last_position(uids.drop_last(), u)
    }
}

/// The day's order: the ranked UIDs, with the placed UID taken out and put
/// back at its requested position (or where it stood, or at the end), but no
/// further back than after all the others.
pub open spec fn day_order(uids: Seq<Seq<char>>, placement: Option<(Seq<char>, Option<u32>)>) -> Seq<Seq<char>> {
    match placement {
        None => uids,
        Some((u, requested)) => {
            let others = without(uids, u);
            let pos: nat = match requested {
                Some(d) => d as nat,
                None => match last_position(uids, u) {
                    Some(c) => c,
                    None => others.len(),
                },
            };
            others.insert(if pos < others.len() { pos as int } else { others.len() as int }, u)
        },
    }
}

/// `r` numbers `uids` from zero.
pub open spec fn numbered(uids: Seq<Seq<char>>, r: Seq<(u32, Seq<char>)>) -> bool {
    &&& r.len() == uids.len()
    &&& forall|i: int| 0 <= i < uids.len() ==> #[trigger] r[i] == (i as u32, uids[i])
}

/// `r` is the day's dense sequence: the assignments ranked by order index and
/// UID, the placement applied, and the result numbered from zero.
pub open spec fn is_day_sequence(
    ranks: Seq<(u32, Seq<char>)>,
    placement: Option<(Seq<char>, Option<u32>)>,
    r: Seq<(u32, Seq<char>)>,
) -> bool {
    exists|ranked: Seq<(u32, Seq<char>)>|
        #[trigger] sorts_entries(ranks, ranked) && numbered(day_order(entry_uids(ranked), placement), r)
}

/// Numbers the UIDs from zero.
fn number_uids(uids: Vec<String>) -> (r: Vec<(u32, String)>)
    requires
        uids@.len() <= u32::MAX,
    ensures
        numbered(uids@.map_values(|u: String| u@), r@.map_values(|e: (u32, String)| entry_view(e))),
{
    let n = uids.len();
    let mut r: Vec<(u32, String)> = Vec::new();
    let mut i: usize = 0;
    while i < n
        invariant
            n == uids@.len(),
            n <= u32::MAX,
            i <= n,
            r@.len() == i,
            forall|k: int| 0 <= k < i ==> (#[trigger] r@[k]).0 == k && r@[k].1@ == uids@[k]@,
        decreases n - i,
    {
        r.push((i as u32, uids[i].clone()));
        i = i + 1;
    }
    proof {
        let rv = r@.map_values(|e: (u32, String)| entry_view(e));
        let uv = uids@.map_values(|u: String| u@);
        assert forall|k: int| 0 <= k < uv.len() implies #[trigger] rv[k] == (k as u32, uv[k]) by {
            assert(rv[k] == entry_view(r@[k]));
        }
    }
    r
}

/// Ranks the day's assignments by persisted order index (unindexed ones last,
/// UID as tie-breaker), applies the placement and numbers the result densely.
pub fn sequence_day(assignments: &Vec<PendingEvent>, placement: &Option<DayPlacement>) -> (r: Vec<(u32, String)>)
    requires
        assignments@.len() < 0x8000_0000,
    ensures
        is_day_sequence(
            assignments@.map_values(|p: PendingEvent| rank_entry(p)),
            placement_view(*placement),
            r@.map_values(|e: (u32, String)| entry_view(e)),
        ),
{
    let n = assignments.len();
    let ghost key = |e: (u32, String)| entry_key(entry_view(e));
    let ghost ranks = assignments@.map_values(|p: PendingEvent| rank_entry(p));
    let mut items: Vec<(u32, String)> = Vec::new();
    let mut keys: Vec<SortKey> = Vec::new();
    let mut i: usize = 0;
    while i < n
        invariant
            n == assignments@.len(),
            i <= n,
            ranks == assignments@.map_values(|p: PendingEvent| rank_entry(p)),
            items@.len() == i,
            forall|j: int| 0 <= j < i ==> #[trigger] entry_view(items@[j]) == ranks[j],
            keys@.len() == i,
            key == (|e: (u32, String)| entry_key(entry_view(e))),
            forall|j: int| 0 <= j < i ==> #[trigger] keys@[j]@ == key(items@[j]),
        decreases n - i,
    {
        let idx: u32 = match assignments[i].order_index {
            Some(k) => k,
            None => u32::MAX,
        };
        keys.push(SortKey { major: idx as u64, text: assignments[i].uid.clone(), minor: 0 });
        items.push((idx, assignments[i].uid.clone()));
        i = i + 1;
    }
    let ghost items_in = items@;
    let ranked = sort_by_keys(items, keys, Ghost(key));
    let ghost ranked_v = ranked@.map_values(|e: (u32, String)| entry_view(e));
    proof {
        let perm = choose|perm: Seq<int>| is_perm_sorted_by(items_in, ranked@, perm, key);
        lemma_perm_sorted_map(items_in, ranked@, perm, key, |e: (u32, String)| entry_view(e), |e: (u32, Seq<char>)| entry_key(e));
        assert(items_in.map_values(|e: (u32, String)| entry_view(e)) =~= ranks);
        assert(sorts_entries(ranks, ranked_v));
    }
    let ghost uids = entry_uids(ranked_v);
    let mut order: Vec<String> = Vec::new();
    match placement {
        None => {
            let mut k: usize = 0;
            while k < n
                invariant
                    n == ranked@.len(),
                    uids == entry_uids(ranked@.map_values(|e: (u32, String)| entry_view(e))),
                    k <= n,
                    uids.len() == n,
                    order@.len() == k,
                    order@.map_values(|u: String| u@) == uids.take(k as int),
                decreases n - k,
            {
                proof {
                    assert(uids[k as int] == ranked@[k as int].1@);
                }
                let ghost before = order@;
                order.push(ranked[k].1.clone());
                proof {
                    let ov = order@.map_values(|u: String| u@);
                    assert forall|j: int| 0 <= j < k + 1 implies #[trigger] ov[j] == uids.take(k + 1)[j] by {
                        if j < k {
                            assert(order@[j] == before[j]);
                            assert(before.map_values(|u: String| u@)[j] == uids.take(k as int)[j]);
                        }
                    }
                }
                k = k + 1;
                assert(order@.map_values(|u: String| u@) =~= uids.take(k as int));
            }
            assert(uids.take(n as int) =~= uids);
        },
        Some(p) => {
            let ghost u = p.uid@;
            let mut current: Option<usize> = None;
            let mut k: usize = 0;
            while k < n
                invariant
                    n == ranked@.len(),
                    n < 0x8000_0000,
                    uids == entry_uids(ranked@.map_values(|e: (u32, String)| entry_view(e))),
                    u == p.uid@,
                    k <= n,
                    order@.map_values(|x: String| x@) == without(uids.take(k as int), u),
                    match current {
                        Some(c) => last_position(uids.take(k as int), u) == Some(c as nat),
                        None => last_position(uids.take(k as int), u) is None,
                    },
                    order@.len() <= k,
                decreases n - k,
            {
                proof {
                    assert(uids.take(k + 1).drop_last() =~= uids.take(k as int));
                    assert(uids.take(k + 1).last() == uids[k as int]);
                    assert(uids[k as int] == ranked@[k as int].1@);
                }
                if text_eq(ranked[k].1.as_str(), p.uid.as_str()) {
                    current = Some(order.len());
                } else {
                    order.push(ranked[k].1.clone());
                }
                k = k + 1;
                assert(order@.map_values(|x: String| x@) =~= without(uids.take(k as int), u));
            }
            assert(uids.take(n as int) =~= uids);
            let m = order.len();
            let pos: usize = match p.order_index {
                Some(d) => d as usize,
                None => match current {
                    Some(c) => c,
                    None => m,
                },
            };
            let at = if pos < m { pos } else { m };
            let ghost before = order@.map_values(|x: String| x@);
            order.insert(at, p.uid.clone());
            assert(order@.map_values(|x: String| x@) =~= before.insert(at as int, u));
        },
    }
    number_uids(order)
}


/// A re-slotting write planned for one resource: the PUT of `payload` to
/// `href`, guarded by `etag` (empty when the server sent none).
pub struct SlotUpdate {
    pub href: String,
    pub uid: String,
    pub etag: String,
    pub payload: String,
}

impl View for SlotUpdate {
    type V = (Seq<char>, Seq<char>, Seq<char>, Seq<char>);

    open spec fn view(&self) -> (Seq<char>, Seq<char>, Seq<char>, Seq<char>) {
        (self.href@, self.uid@, self.etag@, self.payload@)
    }
}

/// The plan for a day: the placed event's position and slot, and the writes
/// for every other assignment that is not yet where it belongs.
pub struct DayPlan {
    /// Order index, first minute and end minute the placed event must be written with.
    pub placed: Option<(u32, u32, u32)>,
    pub updates: Vec<SlotUpdate>,
}

/// Whether the event takes part in re-slotting `date`: it starts that day,
/// links a Daylite project, has a resource path and may safely be patched.
pub open spec fn takes_part(e: RawVEvent, date: Seq<char>) -> bool {
    &&& e.dtstart@ == date
    &&& daylite_reference(e.description@) is Some
    &&& e.href@.len() > 0
    &&& can_patch_slot_spec(e.raw_ical@)
}

/// The events that take part in re-slotting `date`, in their order.
pub open spec fn participants(events: Seq<RawVEvent>, date: Seq<char>) -> Seq<RawVEvent>
    decreases events.len(),
{
    if events.len() == 0 {
        Seq::empty()
    } else if takes_part(events.last(), date) {
        participants(events.drop_last(), date).push(events.last())
    } else {
        participants(events.drop_last(), date)
    }
}

/// The rank of an event: its persisted order index (unindexed last) and UID.
pub open spec fn event_rank(e: RawVEvent) -> (u32, Seq<char>) {
    (
        match e.order_index {
            Some(i) => i,
            None => u32::MAX,
        },
        classified_uid(e),
    )
}

/// The ranks of the events that take part in re-slotting `date`.
pub open spec fn participant_ranks(events: Seq<RawVEvent>, date: Seq<char>) -> Seq<(u32, Seq<char>)> {
    participants(events, date).map_values(|e: RawVEvent| event_rank(e))
}

/// Index of the last occurrence of `u`.
pub open spec fn last_index(uids: Seq<Seq<char>>, u: Seq<char>) -> Option<nat>
    decreases uids.len(),
{
    if uids.len() == 0 {
        None
    } else if uids.last() == u {
        Some((uids.len() - 1) as nat)
    } else {
        last_index(uids.drop_last(), u)
    }
}

/// The position and slot the day's order gives `u` (its last occurrence wins).
pub open spec fn assigned_slot(order: Seq<Seq<char>>, u: Seq<char>) -> Option<(u32, u32, u32)> {
    match last_index(order, u) {
        Some(i) => Some(
            (
                i as u32,
                slot_boundary(i as int, order.len() as int) as u32,
                slot_boundary(i as int + 1, order.len() as int) as u32,
            ),
        ),
        None => None,
    }
}

/// The write planned for one participating event: none when the caller writes
/// it itself or it already sits at its position and in its slot.
pub open spec fn planned_update(
    e: RawVEvent,
    date: Seq<char>,
    order: Seq<Seq<char>>,
    written: Option<Seq<char>>,
) -> Option<(Seq<char>, Seq<char>, Seq<char>, Seq<char>)> {
    let uid = classified_uid(e);
    if written == Some(uid) {
        None
    } else {
        match assigned_slot(order, uid) {
            None => None,
            Some((i, start, end)) => if e.order_index == Some(i) && opt_view(e.start_time) == Some(
                hhmm(start as nat),
            ) && opt_view(e.end_time) == Some(hhmm(end as nat)) {
                None
            } else {
                Some((e.href@, uid, e.etag@, patch_event_slot_spec(e.raw_ical@, date, start as nat, end as nat, i as nat)))
            },
        }
    }
}

/// The writes planned for the participating events, in their order.
pub open spec fn planned_updates(
    parts: Seq<RawVEvent>,
    date: Seq<char>,
    order: Seq<Seq<char>>,
    written: Option<Seq<char>>,
) -> Seq<(Seq<char>, Seq<char>, Seq<char>, Seq<char>)>
    decreases parts.len(),
{
    if parts.len() == 0 {
        Seq::empty()
    } else {
        match planned_update(parts.last(), date, order, written) {
            Some(u) => planned_updates(parts.drop_last(), date, order, written).push(u),
            None => planned_updates(parts.drop_last(), date, order, written),
        }
    }
}

/// The UID the caller writes itself, if any.
pub open spec fn written_uid(placement: Option<DayPlacement>) -> Option<Seq<char>> {
    match placement {
        Some(p) => if p.written_by_caller { Some(p.uid@) } else { None },
        None => None,
    }
}

/// `placed` and `updates` are the plan for `date`: the participants are ranked
/// and sequenced as `sequence_day` does, share the window as `allocate_slots`
/// does, and every participant out of place gets a write.
pub open spec fn is_day_plan(
    events: Seq<RawVEvent>,
    date: Seq<char>,
    placement: Option<DayPlacement>,
    placed: Option<(u32, u32, u32)>,
    updates: Seq<(Seq<char>, Seq<char>, Seq<char>, Seq<char>)>,
) -> bool {
    exists|ranked: Seq<(u32, Seq<char>)>|
        #[trigger] sorts_entries(participant_ranks(events, date), ranked)
            && day_plan_from(events, date, placement, day_order(entry_uids(ranked), placement_view(placement)), placed, updates)
}

/// The plan that a given day order yields.
pub open spec fn day_plan_from(
    events: Seq<RawVEvent>,
    date: Seq<char>,
    placement: Option<DayPlacement>,
    order: Seq<Seq<char>>,
    placed: Option<(u32, u32, u32)>,
    updates: Seq<(Seq<char>, Seq<char>, Seq<char>, Seq<char>)>,
) -> bool {
    &&& placed == match placement {
        Some(p) => assigned_slot(order, p.uid@),
        None => None,
    }
    &&& updates == planned_updates(participants(events, date), date, order, written_uid(placement))
}

proof fn lemma_planned_updates_spare_written(
    parts: Seq<RawVEvent>,
    date: Seq<char>,
    order: Seq<Seq<char>>,
    written: Option<Seq<char>>,
)
    ensures
        forall|k: int|
            0 <= k < planned_updates(parts, date, order, written).len() ==> {
                let u = #[trigger] planned_updates(parts, date, order, written)[k];
                &&& written != Some(u.1)
                &&& exists|j: int| 0 <= j < parts.len() && classified_uid(#[trigger] parts[j]) == u.1 && parts[j].href@ == u.0
            },
    decreases parts.len(),
{
    if parts.len() > 0 {
        let rest = parts.drop_last();
        lemma_planned_updates_spare_written(rest, date, order, written);
        let prev = planned_updates(rest, date, order, written);
        let all = planned_updates(parts, date, order, written);
        assert forall|k: int| 0 <= k < all.len() implies {
            let u = #[trigger] all[k];
            &&& written != Some(u.1)
            &&& exists|j: int| 0 <= j < parts.len() && classified_uid(#[trigger] parts[j]) == u.1 && parts[j].href@ == u.0
        } by {
            if k < prev.len() {
                assert(all[k] == prev[k]);
                let j = choose|j: int| 0 <= j < rest.len() && classified_uid(#[trigger] rest[j]) == prev[k].1 && rest[j].href@ == prev[k].0;
                assert(parts[j] == rest[j]);
            } else {
                assert(parts[parts.len() - 1] == parts.last());
            }
        }
    }
}

proof fn lemma_participants_take_part(events: Seq<RawVEvent>, date: Seq<char>)
    ensures
        forall|j: int| 0 <= j < participants(events, date).len() ==> takes_part(#[trigger] participants(events, date)[j], date),
    decreases events.len(),
{
    if events.len() > 0 {
        let rest = events.drop_last();
        lemma_participants_take_part(rest, date);
        let prev = participants(rest, date);
        let all = participants(events, date);
        assert forall|j: int| 0 <= j < all.len() implies takes_part(#[trigger] all[j], date) by {
            if j < prev.len() {
                assert(all[j] == prev[j]);
            }
        }
    }
}

/// A day plan writes only the day's linked, patchable assignments, and never
/// the event the caller writes itself, so every event is written once per
/// operation.
pub proof fn law_plan_writes_only_participants_and_spares_the_callers_event(
    events: Seq<RawVEvent>,
    date: Seq<char>,
    placement: Option<DayPlacement>,
    placed: Option<(u32, u32, u32)>,
    updates: Seq<(Seq<char>, Seq<char>, Seq<char>, Seq<char>)>,
)
    requires
        is_day_plan(events, date, placement, placed, updates),
    ensures
        forall|k: int| 0 <= k < updates.len() ==> written_uid(placement) != Some((#[trigger] updates[k]).1),
        forall|k: int|
            0 <= k < updates.len() ==> exists|e: RawVEvent|
                takes_part(e, date) && classified_uid(e) == (#[trigger] updates[k]).1 && e.href@ == updates[k].0,
{
    let ranked = choose|ranked: Seq<(u32, Seq<char>)>|
        #[trigger] sorts_entries(participant_ranks(events, date), ranked)
            && day_plan_from(events, date, placement, day_order(entry_uids(ranked), placement_view(placement)), placed, updates);
    let order = day_order(entry_uids(ranked), placement_view(placement));
    let parts = participants(events, date);
    let written = written_uid(placement);
    lemma_planned_updates_spare_written(parts, date, order, written);
    lemma_participants_take_part(events, date);
    assert forall|k: int| 0 <= k < updates.len() implies exists|e: RawVEvent|
        takes_part(e, date) && classified_uid(e) == (#[trigger] updates[k]).1 && e.href@ == updates[k].0 by {
        let u = planned_updates(parts, date, order, written)[k];
        let j = choose|j: int| 0 <= j < parts.len() && classified_uid(#[trigger] parts[j]) == u.1 && parts[j].href@ == u.0;
        assert(takes_part(parts[j], date));
    }
    assert forall|k: int| 0 <= k < updates.len() implies written_uid(placement) != Some((#[trigger] updates[k]).1) by {
        let u = planned_updates(parts, date, order, written)[k];
        assert(written != Some(u.1));
    }
}

/// The position and slot the allocation gives `uid` (its last occurrence wins).
fn find_slot(slots: &Vec<(String, u32, u32)>, uid: &str) -> (r: Option<(u32, u32, u32)>)
    requires
        slots@.len() <= u32::MAX,
    ensures
        r == match last_index(slots@.map_values(|s: (String, u32, u32)| s.0@), uid@) {
            Some(i) => Some((i as u32, slots@[i as int].1, slots@[i as int].2)),
            None => None,
        },
{
    let ghost names = slots@.map_values(|s: (String, u32, u32)| s.0@);
    let n = slots.len();
    let mut found: Option<(u32, u32, u32)> = None;
    let mut i: usize = 0;
    while i < n
        invariant
            n == slots@.len(),
            n <= u32::MAX,
            i <= n,
            names == slots@.map_values(|s: (String, u32, u32)| s.0@),
            found == match last_index(names.take(i as int), uid@) {
                Some(k) => Some((k as u32, slots@[k as int].1, slots@[k as int].2)),
                None => None,
            },
            forall|k: nat| last_index(names.take(i as int), uid@) == Some(k) ==> k < i,
        decreases n - i,
    {
        proof {
            assert(names.take(i + 1).drop_last() =~= names.take(i as int));
            assert(names.take(i + 1).last() == slots@[i as int].0@);
        }
        if text_eq(slots[i].0.as_str(), uid) {
            found = Some((i as u32, slots[i].1, slots[i].2));
        }
        i = i + 1;
    }
    assert(names.take(n as int) =~= names);
    found
}

/// Whether the optional text holds exactly `t`.
fn opt_text_is(o: &Option<String>, t: &str) -> (r: bool)
    ensures
        r == (opt_view(*o) == Some(t@)),
{
    match o {
        Some(s) => text_eq(s.as_str(), t),
        None => false,
    }
}


proof fn lemma_without_len(uids: Seq<Seq<char>>, u: Seq<char>)
    ensures
        without(uids, u).len() <= uids.len(),
    decreases uids.len(),
{
    if uids.len() > 0 {
        lemma_without_len(uids.drop_last(), u);
    }
}

proof fn lemma_last_index_bound(uids: Seq<Seq<char>>, u: Seq<char>)
    ensures
        last_index(uids, u) matches Some(i) ==> i < uids.len() && uids[i as int] == u,
    decreases uids.len(),
{
    if uids.len() > 0 && uids.last() != u {
        lemma_last_index_bound(uids.drop_last(), u);
    }
}

/// What `find_slot` reads off an allocation of the day order is the slot the
/// order assigns.
proof fn lemma_found_slot(alloc: Seq<(String, u32, u32)>, order: Seq<Seq<char>>, u: Seq<char>)
    requires
        alloc.map_values(|s: (String, u32, u32)| s.0@) == order,
        alloc.len() == order.len(),
        alloc.len() <= u32::MAX,
        forall|k: int|
            0 <= k < order.len() ==> (#[trigger] alloc[k]).1 == slot_boundary(k, order.len() as int) && alloc[k].2
                == slot_boundary(k + 1, order.len() as int) && alloc[k].2 <= 960 && alloc[k].1 <= 960,
    ensures
        (match last_index(alloc.map_values(|s: (String, u32, u32)| s.0@), u) {
            Some(i) => Some((i as u32, alloc[i as int].1, alloc[i as int].2)),
            None => None,
        }) == assigned_slot(order, u),
        assigned_slot(order, u) matches Some(t) ==> t.1 <= 960 && t.2 <= 960,
{
    lemma_last_index_bound(order, u);
}

/// The pending event carries the given raw event's rank and slot fields.
pub open spec fn pending_of(p: PendingEvent, e: RawVEvent) -> bool {
    &&& p.uid@ == classified_uid(e)
    &&& p.order_index == e.order_index
    &&& opt_view(p.start_time) == opt_view(e.start_time)
    &&& opt_view(p.end_time) == opt_view(e.end_time)
    &&& p.href@ == e.href@
}

/// Plans the re-slotting of `date`: the day's participating assignments are
/// re-sequenced densely (the placement applied), share the 08:00-16:00 window
/// in that order, and every one whose order index or slot no longer matches
/// gets a write; the placed event's own position and slot come back in
/// `placed`. Excluded events keep their times and take no share.
pub fn plan_slot_updates(events: &Vec<RawVEvent>, date: &str, placement: Option<DayPlacement>) -> (r: DayPlan)
    requires
        events@.len() < 0x8000_0000,
    ensures
        is_day_plan(events@, date@, placement, r.placed, r.updates@.map_values(|u: SlotUpdate| u@)),
{
    let n = events.len();
    let mut pendings: Vec<PendingEvent> = Vec::new();
    let mut idxs: Vec<usize> = Vec::new();
    let mut i: usize = 0;
    while i < n
        invariant
            n == events@.len(),
            n < 0x8000_0000,
            i <= n,
            pendings@.len() == participants(events@.take(i as int), date@).len(),
            idxs@.len() == pendings@.len(),
            pendings@.len() <= i,
            forall|j: int|
                0 <= j < idxs@.len() ==> #[trigger] idxs@[j] < n && events@[idxs@[j] as int] == participants(
                    events@.take(i as int),
                    date@,
                )[j] && pending_of(pendings@[j], events@[idxs@[j] as int]),
        decreases n - i,
    {
        proof {
            assert(events@.take(i + 1).drop_last() =~= events@.take(i as int));
            assert(events@.take(i + 1).last() == events@[i as int]);
        }
        let p = classify_event(&events[i]);
        if text_eq(p.date.as_str(), date) && p.project_ref.is_some() && p.href.as_str().unicode_len() > 0
            && can_patch_slot(events[i].raw_ical.as_str()) {
            pendings.push(p);
            idxs.push(i);
        }
        i = i + 1;
    }
    assert(events@.take(n as int) =~= events@);
    let ghost parts = participants(events@, date@);
    let ghost pv = placement_view(placement);
    proof {
        assert(pendings@.map_values(|p: PendingEvent| rank_entry(p)) =~= participant_ranks(events@, date@)) by {
            assert forall|j: int| 0 <= j < pendings@.len() implies #[trigger] rank_entry(pendings@[j]) == event_rank(parts[j]) by {
                assert(pending_of(pendings@[j], events@[idxs@[j] as int]));
            }
        }
    }
    let entries = sequence_day(&pendings, &placement);
    let ghost entries_v = entries@.map_values(|e: (u32, String)| entry_view(e));
    let ghost ranks_p = pendings@.map_values(|p: PendingEvent| rank_entry(p));
    let ghost ranked = choose|ranked: Seq<(u32, Seq<char>)>|
        #[trigger] sorts_entries(ranks_p, ranked) && numbered(
            day_order(entry_uids(ranked), pv),
            entries_v,
        );
    let ghost order = day_order(entry_uids(ranked), pv);
    proof {
        assert(sorts_entries(participant_ranks(events@, date@), ranked));
        lemma_without_len(entry_uids(ranked), match pv { Some(x) => x.0, None => Seq::empty() });
        assert(entries_v.len() == order.len());
    }
    let alloc = allocate_slots(&entries);
    let ghost alloc_v = alloc@.map_values(|s: (String, u32, u32)| slot_view(s));
    proof {
        let sorted = choose|sorted: Seq<(u32, Seq<char>)>| #[trigger] sorts_entries(entries_v, sorted) && is_slotting(entry_uids(sorted), alloc_v);
        assert forall|k: int| 0 <= k < entries_v.len() implies #[trigger] entry_key(entries_v[k]).0 == k by {
            assert(entries_v[k] == (k as u32, order[k]));
        }
        crate::sort::lemma_sort_of_numbered_is_identity(entries_v, sorted, |e: (u32, Seq<char>)| entry_key(e));
        assert(entry_uids(entries_v) =~= order) by {
            assert forall|k: int| 0 <= k < order.len() implies #[trigger] entry_uids(entries_v)[k] == order[k] by {
                assert(entries_v[k] == (k as u32, order[k]));
            }
        }
        assert(is_slotting(order, alloc_v));
        let names = alloc@.map_values(|s: (String, u32, u32)| s.0@);
        assert(names =~= order) by {
            assert forall|k: int| 0 <= k < order.len() implies #[trigger] names[k] == order[k] by {
                assert(alloc_v[k] == slot_view(alloc@[k]));
            }
        }
        assert forall|k: int| 0 <= k < order.len() implies (#[trigger] alloc@[k]).1 == slot_boundary(k, order.len() as int)
            && alloc@[k].2 == slot_boundary(k + 1, order.len() as int) && alloc@[k].2 <= 960 && alloc@[k].1 <= 960 by {
            assert(alloc_v[k] == slot_view(alloc@[k]));
            lemma_boundary_in_window(k, order.len() as int);
            lemma_boundary_in_window(k + 1, order.len() as int);
        }
    }
    let written: Option<&str> = match &placement {
        Some(p) => if p.written_by_caller { Some(p.uid.as_str()) } else { None },
        None => None,
    };
    assert(match written { Some(w) => Some(w@), None => None::<Seq<char>> } == written_uid(placement));
    let m = pendings.len();
    let mut updates: Vec<SlotUpdate> = Vec::new();
    let mut j: usize = 0;
    while j < m
        invariant
            m == pendings@.len(),
            m == parts.len(),
            n == events@.len(),
            j <= m,
            idxs@.len() == m,
            parts == participants(events@, date@),
            forall|k: int|
                0 <= k < idxs@.len() ==> #[trigger] idxs@[k] < n && events@[idxs@[k] as int] == parts[k]
                    && pending_of(pendings@[k], events@[idxs@[k] as int]),
            alloc@.len() == order.len(),
            alloc@.len() <= u32::MAX,
            alloc@.map_values(|s: (String, u32, u32)| s.0@) == order,
            forall|k: int|
                0 <= k < order.len() ==> (#[trigger] alloc@[k]).1 == slot_boundary(k, order.len() as int) && alloc@[k].2
                    == slot_boundary(k + 1, order.len() as int) && alloc@[k].2 <= 960 && alloc@[k].1 <= 960,
            match written { Some(w) => Some(w@), None => None::<Seq<char>> } == written_uid(placement),
            updates@.map_values(|u: SlotUpdate| u@) == planned_updates(parts.take(j as int), date@, order, written_uid(placement)),
        decreases m - j,
    {
        let ghost e_spec = parts[j as int];
        proof {
            assert(parts.take(j + 1).drop_last() =~= parts.take(j as int));
            assert(parts.take(j + 1).last() == e_spec);
            assert(pending_of(pendings@[j as int], events@[idxs@[j as int] as int]));
        }
        let ghost before = updates@;
        let pd = &pendings[j];
        let ev = &events[idxs[j]];
        let mine = match written {
            Some(w) => text_eq(pd.uid.as_str(), w),
            None => false,
        };
        proof {
            lemma_found_slot(alloc@, order, pd.uid@);
        }
        if !mine {
            match find_slot(&alloc, pd.uid.as_str()) {
                Some((index, start, end)) => {
                    let start_text = format_hhmm(start);
                    let end_text = format_hhmm(end);
                    let same_index = match pd.order_index {
                        Some(k) => k == index,
                        None => false,
                    };
                    let in_place = same_index && opt_text_is(&pd.start_time, start_text.as_str()) && opt_text_is(
                        &pd.end_time,
                        end_text.as_str(),
                    );
                    if !in_place {
                        let payload = patch_event_slot(ev.raw_ical.as_str(), date, start, end, index);
                        updates.push(
                            SlotUpdate { href: pd.href.clone(), uid: pd.uid.clone(), etag: ev.etag.clone(), payload },
                        );
                    }
                },
                None => {},
            }
        }
        j = j + 1;
        proof {
            assert(updates@.map_values(|u: SlotUpdate| u@) =~= planned_updates(parts.take(j as int), date@, order, written_uid(placement)));
        }
    }
    assert(parts.take(m as int) =~= parts);
    let placed = match &placement {
        Some(p) => {
            proof {
                lemma_found_slot(alloc@, order, p.uid@);
            }
            find_slot(&alloc, p.uid.as_str())
        },
        None => None,
    };
    proof {
        assert(day_plan_from(events@, date@, placement, order, placed, updates@.map_values(|u: SlotUpdate| u@)));
    }
    DayPlan { placed, updates }
}

/// The placed event's position and slot, or, when the day could not be
/// planned, the first position and the full window.
pub fn placed_or_full_window(plan: &Option<DayPlan>) -> (r: (u32, u32, u32))
    ensures
        r == match plan {
            Some(p) => match p.placed {
                Some(t) => t,
                None => (0u32, WINDOW_START_MINUTE, (WINDOW_START_MINUTE + WINDOW_LENGTH_MINUTES) as u32),
            },
            None => (0u32, WINDOW_START_MINUTE, (WINDOW_START_MINUTE + WINDOW_LENGTH_MINUTES) as u32),
        },
{
    let placed = match plan {
        Some(p) => p.placed,
        None => None,
    };
    match placed {
        Some(t) => t,
        None => {
            let (start, end) = full_window();
            (0, start, end)
        },
    }
}

} // verus!
