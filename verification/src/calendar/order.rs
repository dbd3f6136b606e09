//! Ordering of a week's events: by day, absences first within a day.

use super::types::{CalendarCellEvent, CalendarEventKind};
use crate::sort::{is_stable_sort_by, sort_by_keys, SortKey};
use vstd::prelude::*;

verus! {

/// The sort key of an event: its date text, then 0 for an absence and 1 for anything else.
pub open spec fn event_order_key(e: CalendarCellEvent) -> (u64, Seq<char>, u64) {
    (0u64, e.date@, if e.kind == CalendarEventKind::Absence { 0u64 } else { 1u64 })
}

/// Sorts events by date and puts absences before other events of the same day;
/// otherwise events keep their relative order.
pub fn sort_events_absences_first(events: &mut Vec<CalendarCellEvent>)
    ensures
        is_stable_sort_by(old(events)@, final(events)@, |e: CalendarCellEvent| event_order_key(e)),
{
    let ghost key = |e: CalendarCellEvent| event_order_key(e);
    let mut taken: Vec<CalendarCellEvent> = Vec::new();
    std::mem::swap(&mut taken, events);
    let mut keys: Vec<SortKey> = Vec::new();
    let mut i: usize = 0;
    while i < taken.len()
        invariant
            i <= taken@.len(),
            key == (|e: CalendarCellEvent| event_order_key(e)),
            keys@.len() == i,
            forall|j: int| 0 <= j < i ==> #[trigger] keys@[j]@ == key(taken@[j]),
        decreases taken.len() - i,
    {
        let rank: u64 = match taken[i].kind {
            CalendarEventKind::Absence => 0,
            _ => 1,
        };
        keys.push(SortKey { major: 0, text: taken[i].date.clone(), minor: rank });
        i = i + 1;
    }
    let sorted = sort_by_keys(taken, keys, Ghost(key));
    *events = sorted;
}

} // verus!
