//! The short-lived cache of resolved projects: when an entry may be served,
//! what a load leaves behind, and which entries a sweep keeps.

use super::projects::ResolvedProject;
use vstd::prelude::*;

verus! {

/// How long a resolved project is served from the cache.
pub const PROJECT_CACHE_TTL_MS: u64 = 30_000;

/// Above this many slots, expired ones are swept before another is added.
pub const PROJECT_CACHE_SWEEP_ABOVE: usize = 512;

/// A resolved project and when it was loaded.
#[derive(Clone, Debug)]
pub struct CacheEntry {
    pub project: ResolvedProject,
    pub fetched_at_ms: u64,
}

/// An entry is fresh while less than the TTL has passed since it was loaded
/// (time running backwards counts as none passed).
pub open spec fn is_fresh_spec(fetched_at_ms: u64, now_ms: u64, ttl_ms: u64) -> bool {
    (if now_ms >= fetched_at_ms { now_ms - fetched_at_ms } else { 0 }) < ttl_ms
}

/// Whether an entry loaded at `fetched_at_ms` is still fresh at `now_ms`.
pub fn is_fresh(fetched_at_ms: u64, now_ms: u64, ttl_ms: u64) -> (r: bool)
    ensures
        r == is_fresh_spec(fetched_at_ms, now_ms, ttl_ms),
{
    now_ms.saturating_sub(fetched_at_ms) < ttl_ms
}

fn copy_project(p: &ResolvedProject) -> (r: ResolvedProject)
    ensures
        r == *p,
{
    ResolvedProject {
        name: p.name.clone(),
        status: p.status.clone(),
        category: match &p.category {
            Some(c) => Some(c.clone()),
            None => None,
        },
    }
}

/// The project a slot serves without loading: its entry, while fresh.
pub open spec fn served_spec(entry: Option<CacheEntry>, now_ms: u64, ttl_ms: u64) -> Option<ResolvedProject> {
    match entry {
        Some(e) => if is_fresh_spec(e.fetched_at_ms, now_ms, ttl_ms) {
            Some(e.project)
        } else {
            None
        },
        None => None,
    }
}

/// The project the slot serves without loading, if any.
pub fn served_project(entry: &Option<CacheEntry>, now_ms: u64, ttl_ms: u64) -> (r: Option<ResolvedProject>)
    ensures
        r == served_spec(*entry, now_ms, ttl_ms),
{
    match entry {
        Some(e) => if is_fresh(e.fetched_at_ms, now_ms, ttl_ms) {
            Some(copy_project(&e.project))
        } else {
            None
        },
        None => None,
    }
}

/// Records what a load returned: a project is stored with the load time, a
/// failure leaves the slot as it was, since a cached failure would degrade the
/// card for a whole TTL. Returns what the load returned.
pub fn record_load(entry: &mut Option<CacheEntry>, loaded: Option<ResolvedProject>, now_ms: u64) -> (r: Option<ResolvedProject>)
    ensures
        r == loaded,
        *final(entry) == (match loaded {
            Some(p) => Some(CacheEntry { project: p, fetched_at_ms: now_ms }),
            None => *old(entry),
        }),
{
    match loaded {
        Some(p) => {
            *entry = Some(CacheEntry { project: copy_project(&p), fetched_at_ms: now_ms });
            Some(p)
        },
        None => None,
    }
}

/// Whether adding a slot for a new reference must first sweep expired ones.
pub fn needs_sweep(slot_count: usize, sweep_above: usize, has_slot: bool) -> (r: bool)
    ensures
        r == (slot_count > sweep_above && !has_slot),
{
    slot_count > sweep_above && !has_slot
}

/// Whether a sweep keeps a slot: one another task holds (a load in flight)
/// stays, an empty one goes, a loaded one stays while fresh.
pub fn sweep_keeps(entry: &Option<CacheEntry>, held_elsewhere: bool, now_ms: u64, ttl_ms: u64) -> (r: bool)
    ensures
        r == (held_elsewhere || served_spec(*entry, now_ms, ttl_ms) is Some),
{
    if held_elsewhere {
        return true;
    }
    match entry {
        Some(e) => is_fresh(e.fetched_at_ms, now_ms, ttl_ms),
        None => false,
    }
}

/// The cache clock: the milliseconds elapsed since the cache first looked at
/// its monotonic clock, saturating at `u64::MAX`.
pub fn cache_now_ms(elapsed_ms: u128) -> (r: u64)
    ensures
        r == if elapsed_ms <= u64::MAX { elapsed_ms as u64 } else { u64::MAX },
{
    if elapsed_ms <= u64::MAX as u128 {
        elapsed_ms as u64
    } else {
        u64::MAX
    }
}

/// A loaded project is served again, without another load, until the TTL has
/// passed; a failed load leaves nothing to serve.
pub proof fn law_a_load_is_served_until_it_expires(p: ResolvedProject, loaded_at_ms: u64, now_ms: u64, ttl_ms: u64)
    requires
        loaded_at_ms <= now_ms,
    ensures
        served_spec(Some(CacheEntry { project: p, fetched_at_ms: loaded_at_ms }), now_ms, ttl_ms) == (if now_ms
            - loaded_at_ms < ttl_ms {
            Some(p)
        } else {
            None
        }),
        served_spec(None, now_ms, ttl_ms) is None,
{
}

} // verus!
