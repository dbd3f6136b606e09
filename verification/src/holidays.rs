//! Public holidays of Mecklenburg-Vorpommern for the planning week, and the
//! rules of the per-year holiday cache.

use crate::dates::{day_text, format_ymd, parse_ymd, year_of, day_year, ymd_day, CalendarDate};
use crate::local_store::{CachedHoliday, HolidayCacheEntry};
use crate::text::text_eq;
use vstd::prelude::*;

verus! {

/// A public holiday on the planning grid.
#[derive(Clone, Debug, PartialEq, Eq)]
pub struct Holiday {
    /// `yyyy-MM-dd`.
    pub date: String,
    pub name: String,
}

/// A holiday as the Nager.Date API sends it.
#[derive(Clone, Debug, PartialEq, Eq)]
pub struct NagerHoliday {
    pub date: String,
    pub local_name: String,
    /// Whether it holds in every state.
    pub global: bool,
    /// The states it holds in, when not global.
    pub counties: Option<Vec<String>>,
}

/// A cached year is refetched once it is older than this many days.
pub const CACHE_REFRESH_DAYS: i32 = 30;

/// 2000-01-01 as a day number: the fetch day assumed for a cache entry whose
/// fetch day cannot be read, so that such an entry is never fresh.
pub const FALLBACK_FETCH_DAY: i32 = 730120;

/// The views of a list of texts.
pub open spec fn texts_view(v: Seq<String>) -> Seq<Seq<char>> {
    v.map_values(|s: String| s@)
}

/// A holiday counts when it is global or holds in Mecklenburg-Vorpommern.
pub open spec fn counts_in_mv(h: NagerHoliday) -> bool {
    h.global || match h.counties {
        Some(c) => texts_view(c@).contains("DE-MV"@),
        None => false,
    }
}

/// The holidays that count, under their local name, in order.
pub open spec fn mv_holidays(hs: Seq<NagerHoliday>) -> Seq<(Seq<char>, Seq<char>)>
    decreases hs.len(),
{
    if hs.len() == 0 {
        Seq::empty()
    } else if counts_in_mv(hs.last()) {
        mv_holidays(hs.drop_last()).push((hs.last().date@, hs.last().local_name@))
    } else {
        mv_holidays(hs.drop_last())
    }
}

/// The views of holidays: date and name.
pub open spec fn holidays_view(v: Seq<Holiday>) -> Seq<(Seq<char>, Seq<char>)> {
    v.map_values(|h: Holiday| (h.date@, h.name@))
}

fn contains_mv(counties: &Vec<String>) -> (r: bool)
    ensures
        r == texts_view(counties@).contains("DE-MV"@),
{
    let n = counties.len();
    let mut i: usize = 0;
    while i < n
        invariant
            n == counties@.len(),
            i <= n,
            forall|k: int| 0 <= k < i ==> counties@[k]@ != "DE-MV"@,
        decreases n - i,
    {
        if text_eq(counties[i].as_str(), "DE-MV") {
            assert(texts_view(counties@)[i as int] == "DE-MV"@);
            return true;
        }
        i = i + 1;
    }
    proof {
        if texts_view(counties@).contains("DE-MV"@) {
            let k = choose|k: int| 0 <= k < texts_view(counties@).len() && texts_view(counties@)[k] == "DE-MV"@;
            assert(counties@[k]@ == "DE-MV"@);
        }
    }
    false
}

/// Keeps the global holidays and those of Mecklenburg-Vorpommern (`DE-MV`),
/// named by their local name.
pub fn filter_holidays(nager_holidays: Vec<NagerHoliday>) -> (r: Vec<Holiday>)
    ensures
        holidays_view(r@) == mv_holidays(nager_holidays@),
{
    let ghost orig = nager_holidays@;
    let n = nager_holidays.len();
    let mut rest = nager_holidays;
    let mut r: Vec<Holiday> = Vec::new();
    let mut i: usize = 0;
    while i < n
        invariant
            n == orig.len(),
            i <= n,
            rest@ == orig.skip(i as int),
            holidays_view(r@) == mv_holidays(orig.take(i as int)),
        decreases n - i,
    {
        let h = rest.remove(0);
        assert(h == orig[i as int]);
        proof {
            assert(orig.take(i + 1).drop_last() =~= orig.take(i as int));
            assert(orig.take(i + 1).last() == h);
        }
        let counts = h.global || match &h.counties {
            Some(c) => contains_mv(c),
            None => false,
        };
        if counts {
            let ghost before = r@;
            r.push(Holiday { date: h.date, name: h.local_name });
            assert(holidays_view(r@) =~= holidays_view(before).push((orig[i as int].date@, orig[i as int].local_name@)));
        }
        i = i + 1;
        assert(rest@ =~= orig.skip(i as int));
    }
    assert(orig.take(n as int) =~= orig);
    r
}

/// The cached holidays of every entry, in order, whose date reads and lies
/// within `start..=end` (both ends count).
pub open spec fn holidays_between(entries: Seq<HolidayCacheEntry>, start: int, end: int) -> Seq<(Seq<char>, Seq<char>)>
    decreases entries.len(),
{
    if entries.len() == 0 {
        Seq::empty()
    } else {
        holidays_between(entries.drop_last(), start, end) + cached_between(entries.last().holidays@, start, end)
    }
}

/// The cached holidays whose date reads and lies within `start..=end`.
pub open spec fn cached_between(hs: Seq<CachedHoliday>, start: int, end: int) -> Seq<(Seq<char>, Seq<char>)>
    decreases hs.len(),
{
    if hs.len() == 0 {
        Seq::empty()
    } else {
        let h = hs.last();
        let rest = cached_between(hs.drop_last(), start, end);
        match ymd_day(h.date@) {
            Some(d) => if start <= d <= end {
                rest.push((h.date@, h.name@))
            } else {
                rest
            },
            None => rest,
        }
    }
}

/// The cached holidays between `start` and `end`, both included.
pub fn holidays_in_range(cache: &Vec<HolidayCacheEntry>, start: CalendarDate, end: CalendarDate) -> (r: Vec<Holiday>)
    ensures
        holidays_view(r@) == holidays_between(cache@, start.day as int, end.day as int),
{
    let n = cache.len();
    let mut r: Vec<Holiday> = Vec::new();
    let mut i: usize = 0;
    while i < n
        invariant
            n == cache@.len(),
            i <= n,
            holidays_view(r@) == holidays_between(cache@.take(i as int), start.day as int, end.day as int),
        decreases n - i,
    {
        proof {
            assert(cache@.take(i + 1).drop_last() =~= cache@.take(i as int));
            assert(cache@.take(i + 1).last() == cache@[i as int]);
        }
        let hs = &cache[i].holidays;
        let m = hs.len();
        let ghost base = holidays_view(r@);
        let mut j: usize = 0;
        while j < m
            invariant
                m == hs@.len(),
                j <= m,
                holidays_view(r@) == base + cached_between(hs@.take(j as int), start.day as int, end.day as int),
            decreases m - j,
        {
            proof {
                assert(hs@.take(j + 1).drop_last() =~= hs@.take(j as int));
                assert(hs@.take(j + 1).last() == hs@[j as int]);
            }
            if let Some(d) = parse_ymd(hs[j].date.as_str()) {
                if start.day <= d.day && d.day <= end.day {
                    let ghost before = r@;
                    r.push(Holiday { date: hs[j].date.clone(), name: hs[j].name.clone() });
                    assert(holidays_view(r@) =~= holidays_view(before).push((hs@[j as int].date@, hs@[j as int].name@)));
                }
            }
            j = j + 1;
        }
        assert(hs@.take(m as int) =~= hs@);
        i = i + 1;
    }
    assert(cache@.take(n as int) =~= cache@);
    r
}

/// The years a week touches: one, or two when it spans New Year; none when a
/// day cannot be represented.
pub open spec fn week_years(start: int, end: int) -> Option<Seq<i32>> {
    match (day_year(start), day_year(end)) {
        (Some(a), Some(b)) => if a == b {
            Some(seq![a as i32])
        } else {
            Some(seq![a as i32, b as i32])
        },
        _ => None,
    }
}

/// The years whose holidays a week needs (see `week_years`).
pub fn years_for_week(start: CalendarDate, end: CalendarDate) -> (r: Option<Vec<i32>>)
    ensures
        match r {
            Some(v) => week_years(start.day as int, end.day as int) == Some(v@),
            None => week_years(start.day as int, end.day as int) is None,
        },
{
    let a = match year_of(start) {
        Some(a) => a,
        None => return None,
    };
    let b = match year_of(end) {
        Some(b) => b,
        None => return None,
    };
    if a == b {
        let v = vec![a];
        assert(v@ =~= seq![a]);
        Some(v)
    } else {
        let v = vec![a, b];
        assert(v@ =~= seq![a, b]);
        Some(v)
    }
}

/// The day a cache entry was fetched, 2000-01-01 when it cannot be read.
pub open spec fn fetch_day(entry: HolidayCacheEntry) -> int {
    match ymd_day(entry.fetched_at@) {
        Some(d) => d,
        None => FALLBACK_FETCH_DAY as int,
    }
}

/// A cache entry is fresh for 30 days after its fetch day.
pub fn is_cache_entry_fresh(entry: &HolidayCacheEntry, today: CalendarDate) -> (r: bool)
    ensures
        r == (today.day - fetch_day(*entry) <= CACHE_REFRESH_DAYS),
{
    let fetched = match parse_ymd(entry.fetched_at.as_str()) {
        Some(d) => d.day,
        None => FALLBACK_FETCH_DAY,
    };
    (today.day as i64) - (fetched as i64) <= CACHE_REFRESH_DAYS as i64
}

/// The first cache entry for `year`, if any.
pub open spec fn entry_for_year(cache: Seq<HolidayCacheEntry>, year: i32) -> Option<HolidayCacheEntry>
    decreases cache.len(),
{
    if cache.len() == 0 {
        None
    } else if cache[0].year == year {
        Some(cache[0])
    } else {
        entry_for_year(cache.drop_first(), year)
    }
}

/// A year is fetched when it is not cached, or when it is the current year
/// and its entry is no longer fresh; past and future years stay as cached.
pub open spec fn needs_fetch_spec(cache: Seq<HolidayCacheEntry>, year: i32, current_year: i32, today: int) -> bool {
    match entry_for_year(cache, year) {
        None => true,
        Some(e) => year == current_year && !(today - fetch_day(e) <= CACHE_REFRESH_DAYS),
    }
}

/// Whether the holidays of `year` must be fetched (see `needs_fetch_spec`).
pub fn year_needs_fetch(cache: &Vec<HolidayCacheEntry>, year: i32, current_year: i32, today: CalendarDate) -> (r: bool)
    ensures
        r == needs_fetch_spec(cache@, year, current_year, today.day as int),
{
    let n = cache.len();
    let mut i: usize = 0;
    assert(cache@.skip(0) =~= cache@);
    while i < n
        invariant
            n == cache@.len(),
            i <= n,
            entry_for_year(cache@, year) == entry_for_year(cache@.skip(i as int), year),
        decreases n - i,
    {
        proof {
            let tail = cache@.skip(i as int);
            assert(tail[0] == cache@[i as int]);
            assert(tail.drop_first() =~= cache@.skip(i + 1));
        }
        if cache[i].year == year {
            return year == current_year && !is_cache_entry_fresh(&cache[i], today);
        }
        i = i + 1;
    }
    assert(cache@.skip(n as int) =~= Seq::<HolidayCacheEntry>::empty());
    true
}

/// The cache without the entries of `year`, then the new entry.
pub open spec fn replaced_year(cache: Seq<HolidayCacheEntry>, entry: HolidayCacheEntry) -> Seq<HolidayCacheEntry> {
    cache.filter(|e: HolidayCacheEntry| e.year != entry.year).push(entry)
}

/// Replaces the cached holidays of the entry's year.
pub fn replace_year(cache: &mut Vec<HolidayCacheEntry>, entry: HolidayCacheEntry)
    ensures
        final(cache)@ == replaced_year(old(cache)@, entry),
{
    let ghost orig = cache@;
    let mut taken: Vec<HolidayCacheEntry> = Vec::new();
    std::mem::swap(&mut taken, cache);
    let n = taken.len();
    let mut i: usize = 0;
    while i < n
        invariant
            n == orig.len(),
            taken@ == orig.skip(i as int),
            i <= n,
            cache@ == orig.take(i as int).filter(|e: HolidayCacheEntry| e.year != entry.year),
        decreases n - i,
    {
        let e = taken.remove(0);
        assert(e == orig[i as int]);
        proof {
            assert(orig.take(i + 1).drop_last() =~= orig.take(i as int));
            orig.take(i as int).lemma_filter_push(e, |e: HolidayCacheEntry| e.year != entry.year);
            assert(orig.take(i as int).push(e) =~= orig.take(i + 1));
        }
        if e.year != entry.year {
            cache.push(e);
        }
        i = i + 1;
        assert(taken@ =~= orig.skip(i as int));
    }
    assert(orig.take(n as int) =~= orig);
    cache.push(entry);
}

/// The cache entry of holidays of `year` fetched on `today`: the holidays as
/// fetched, stamped with today's `yyyy-MM-dd`; none when today has no date.
pub fn fetched_cache_entry(year: i32, today: CalendarDate, holidays: Vec<Holiday>) -> (r: Option<HolidayCacheEntry>)
    ensures
        match day_text(today.day as int) {
            None => r is None,
            Some(t) => r matches Some(e) && e.year == year && e.fetched_at@ == t && e.holidays@.len() == holidays@.len() && forall|
                i: int,
            | 0 <= i < holidays@.len() ==> (#[trigger] e.holidays@[i]).date == holidays@[i].date && e.holidays@[i].name
                == holidays@[i].name,
        },
{
    let fetched_at = match format_ymd(today) {
        Some(t) => t,
        None => return None,
    };
    let ghost orig = holidays@;
    let n = holidays.len();
    let mut rest = holidays;
    let mut cached: Vec<CachedHoliday> = Vec::new();
    let mut i: usize = 0;
    while i < n
        invariant
            n == orig.len(),
            i <= n,
            rest@ == orig.skip(i as int),
            cached@.len() == i,
            forall|k: int| 0 <= k < i ==> (#[trigger] cached@[k]).date == orig[k].date && cached@[k].name == orig[k].name,
        decreases n - i,
    {
        let h = rest.remove(0);
        assert(h == orig[i as int]);
        cached.push(CachedHoliday { date: h.date, name: h.name });
        i = i + 1;
        assert(rest@ =~= orig.skip(i as int));
    }
    Some(HolidayCacheEntry { year, fetched_at, holidays: cached })
}

/// A cached holiday whose date reads as a day from `start` to `end`, both
/// included.
pub open spec fn falls_within(h: CachedHoliday, start: int, end: int) -> bool {
    ymd_day(h.date@) matches Some(d) && start <= d && d <= end
}

#[verifier::spinoff_prover]
proof fn lemma_cached_between_members(hs: Seq<CachedHoliday>, start: int, end: int)
    ensures
        forall|j: int| 0 <= j < hs.len() && falls_within(#[trigger] hs[j], start, end) ==> cached_between(hs, start, end).contains(
            (hs[j].date@, hs[j].name@),
        ),
        forall|k: int| #![trigger cached_between(hs, start, end)[k]] 0 <= k < cached_between(hs, start, end).len() ==> exists|j: int|
            0 <= j < hs.len() && falls_within(#[trigger] hs[j], start, end) && cached_between(hs, start, end)[k] == (
                hs[j].date@,
                hs[j].name@,
            ),
    decreases hs.len(),
{
    if hs.len() > 0 {
        let init = hs.drop_last();
        let rest = cached_between(init, start, end);
        let all = cached_between(hs, start, end);
        lemma_cached_between_members(init, start, end);
        assert forall|j: int| 0 <= j < hs.len() && falls_within(#[trigger] hs[j], start, end) implies all.contains(
            (hs[j].date@, hs[j].name@),
        ) by {
            if j < hs.len() - 1 {
                assert(init[j] == hs[j]);
                let w = choose|w: int| 0 <= w < rest.len() && rest[w] == (init[j].date@, init[j].name@);
                assert(all[w] == rest[w]);
            } else {
                assert(all[all.len() - 1] == (hs[j].date@, hs[j].name@));
            }
        }
        assert forall|k: int| #![trigger cached_between(hs, start, end)[k]]
            0 <= k < cached_between(hs, start, end).len() implies exists|j: int|
            0 <= j < hs.len() && falls_within(#[trigger] hs[j], start, end) && cached_between(hs, start, end)[k] == (
                hs[j].date@,
                hs[j].name@,
            ) by {
            let h = hs.last();
            if k < rest.len() {
                assert(all[k] == rest[k]);
                let j = choose|j: int|
                    0 <= j < init.len() && falls_within(#[trigger] init[j], start, end) && rest[k] == (init[j].date@, init[j].name@);
                assert(hs[j] == init[j]);
                assert(falls_within(hs[j], start, end) && all[k] == (hs[j].date@, hs[j].name@));
            } else {
                assert(ymd_day(h.date@) is Some);
                assert(all == rest.push((h.date@, h.name@)));
                assert(all[k] == (h.date@, h.name@));
                assert(hs[hs.len() - 1] == h);
                assert(falls_within(hs[hs.len() - 1], start, end));
            }
        }
    }
}

/// Both ends of the range count: every cached holiday of every entry whose
/// date reads as a day from `start` to `end`, both included, is listed, and
/// every listed holiday is such a cached holiday, with its date and name.
#[verifier::spinoff_prover]
#[verifier::rlimit(40)]
pub proof fn law_holidays_between_keep_both_ends(entries: Seq<HolidayCacheEntry>, start: int, end: int)
    ensures
        forall|i: int, j: int|
            0 <= i < entries.len() && 0 <= j < entries[i].holidays@.len() && falls_within(
                #[trigger] entries[i].holidays@[j],
                start,
                end,
            ) ==> holidays_between(entries, start, end).contains(
                (entries[i].holidays@[j].date@, entries[i].holidays@[j].name@),
            ),
        forall|k: int| #![trigger holidays_between(entries, start, end)[k]] 0 <= k < holidays_between(entries, start, end).len() ==> exists|i: int, j: int|
            0 <= i < entries.len() && 0 <= j < entries[i].holidays@.len() && falls_within(
                #[trigger] entries[i].holidays@[j],
                start,
                end,
            ) && holidays_between(entries, start, end)[k] == (entries[i].holidays@[j].date@, entries[i].holidays@[j].name@),
    decreases entries.len(),
{
    if entries.len() > 0 {
        let init = entries.drop_last();
        let last = entries.last();
        let rest = holidays_between(init, start, end);
        let tail = cached_between(last.holidays@, start, end);
        let all = holidays_between(entries, start, end);
        law_holidays_between_keep_both_ends(init, start, end);
        lemma_cached_between_members(last.holidays@, start, end);
        assert(all == rest + tail);
        assert forall|i: int, j: int|
            0 <= i < entries.len() && 0 <= j < entries[i].holidays@.len() && falls_within(
                #[trigger] entries[i].holidays@[j],
                start,
                end,
            ) implies all.contains((entries[i].holidays@[j].date@, entries[i].holidays@[j].name@)) by {
            if i < entries.len() - 1 {
                assert(init[i] == entries[i]);
                assert(falls_within(init[i].holidays@[j], start, end));
                let w = choose|w: int| 0 <= w < rest.len() && rest[w] == (init[i].holidays@[j].date@, init[i].holidays@[j].name@);
                assert(all[w] == rest[w]);
            } else {
                assert(last.holidays@[j] == entries[i].holidays@[j]);
                let w = choose|w: int|
                    0 <= w < tail.len() && tail[w] == (last.holidays@[j].date@, last.holidays@[j].name@);
                assert(all[rest.len() + w] == tail[w]);
            }
        }
        assert forall|k: int| #![trigger holidays_between(entries, start, end)[k]] 0 <= k < holidays_between(entries, start, end).len() implies exists|i: int, j: int|
            0 <= i < entries.len() && 0 <= j < entries[i].holidays@.len() && falls_within(
                #[trigger] entries[i].holidays@[j],
                start,
                end,
            ) && holidays_between(entries, start, end)[k] == (entries[i].holidays@[j].date@, entries[i].holidays@[j].name@) by {
            if k < rest.len() {
                assert(all[k] == rest[k]);
                let (i, j) = choose|i: int, j: int|
                    0 <= i < init.len() && 0 <= j < init[i].holidays@.len() && falls_within(
                        #[trigger] init[i].holidays@[j],
                        start,
                        end,
                    ) && rest[k] == (init[i].holidays@[j].date@, init[i].holidays@[j].name@);
                assert(entries[i] == init[i]);
                assert(falls_within(entries[i].holidays@[j], start, end));
            } else {
                assert(all[k] == tail[k - rest.len()]);
                let j = choose|j: int|
                    0 <= j < last.holidays@.len() && falls_within(#[trigger] last.holidays@[j], start, end) && tail[k - rest.len()] == (
                        last.holidays@[j].date@,
                        last.holidays@[j].name@,
                    );
                let i = entries.len() - 1;
                assert(entries[i] == last);
                assert(falls_within(entries[i].holidays@[j], start, end));
            }
        }
    }
}

} // verus!

