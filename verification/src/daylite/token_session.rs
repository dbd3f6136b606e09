//! The published Daylite tokens: which lease a request may use, and the
//! generations that let a burst of rejected requests share one rotation.

use super::shared::DayliteTokenState;
use crate::text::trimmed;
use vstd::prelude::*;

verus! {

/// A leased token must outlive the whole request: nothing refreshes mid-request.
pub const LEASE_MIN_REMAINING_MS: u64 = 60_000;

/// Tokens handed to one operation, with the generation they were published in.
#[derive(Clone, Debug)]
pub struct TokenLease {
    pub tokens: DayliteTokenState,
    pub generation: u64,
}

/// What the session has published: nothing yet, or the current tokens and
/// their generation (seeded tokens are generation 0, each publication adds one).
pub struct TokenSessionState {
    pub published: Option<TokenLease>,
}

/// An access token outlives `now + min_remaining` (the sum saturating), and is
/// not blank.
pub open spec fn has_life_left_spec(tokens: DayliteTokenState, now_ms: u64, min_remaining_ms: u64) -> bool {
    &&& trimmed(tokens.access_token@).len() > 0
    &&& match tokens.access_token_expires_at_ms {
        Some(expires_at_ms) => expires_at_ms > (if now_ms + min_remaining_ms > u64::MAX {
            u64::MAX as int
        } else {
            now_ms + min_remaining_ms
        }),
        None => false,
    }
}

/// Whether the tokens may still be leased at `now_ms`.
pub fn has_life_left(tokens: &DayliteTokenState, now_ms: u64, min_remaining_ms: u64) -> (r: bool)
    ensures
        r == has_life_left_spec(*tokens, now_ms, min_remaining_ms),
{
    if !super::shared::has_text(tokens.access_token.as_str()) {
        return false;
    }
    match tokens.access_token_expires_at_ms {
        Some(expires_at_ms) => expires_at_ms > now_ms.saturating_add(min_remaining_ms),
        None => false,
    }
}

/// A copy of the tokens.
pub fn copy_tokens(t: &DayliteTokenState) -> (r: DayliteTokenState)
    ensures
        r == *t,
{
    DayliteTokenState {
        access_token: t.access_token.clone(),
        refresh_token: t.refresh_token.clone(),
        access_token_expires_at_ms: t.access_token_expires_at_ms,
    }
}

fn copy_lease(l: &TokenLease) -> (r: TokenLease)
    ensures
        r == *l,
{
    TokenLease { tokens: copy_tokens(&l.tokens), generation: l.generation }
}

/// The generation of what is published; zero when nothing is.
pub open spec fn generation_of(published: Option<TokenLease>) -> nat {
    match published {
        Some(l) => l.generation as nat,
        None => 0,
    }
}

/// What a publication of `tokens` makes current: the next generation.
pub open spec fn published_after(published: Option<TokenLease>, tokens: DayliteTokenState) -> TokenLease {
    TokenLease {
        tokens,
        generation: match published {
            Some(l) => (l.generation + 1) as u64,
            None => 1u64,
        },
    }
}

/// What seeding with stored tokens leaves published.
pub open spec fn seeded(published: Option<TokenLease>, tokens: DayliteTokenState) -> Option<TokenLease> {
    match published {
        Some(l) => Some(l),
        None => Some(TokenLease { tokens, generation: 0 }),
    }
}

/// The current lease if it is still fresh at `now_ms`.
pub open spec fn fresh_lease_spec(published: Option<TokenLease>, now_ms: u64, min_remaining_ms: u64) -> Option<TokenLease> {
    match published {
        Some(l) => if has_life_left_spec(l.tokens, now_ms, min_remaining_ms) {
            Some(l)
        } else {
            None
        },
        None => None,
    }
}

/// The current lease if it was published after `generation`.
pub open spec fn lease_newer_spec(published: Option<TokenLease>, generation: u64) -> Option<TokenLease> {
    match published {
        Some(l) => if l.generation > generation {
            Some(l)
        } else {
            None
        },
        None => None,
    }
}

impl TokenSessionState {
    /// A session that has published nothing.
    pub fn new() -> (r: Self)
        ensures
            r.published is None,
    {
        TokenSessionState { published: None }
    }

    /// Whether nothing has been published yet.
    pub fn is_empty(&self) -> (r: bool)
        ensures
            r == self.published is None,
    {
        self.published.is_none()
    }

    /// Seeds the session with stored tokens as generation 0, unless something
    /// was published already.
    pub fn seed(&mut self, tokens: DayliteTokenState)
        ensures
            final(self).published == seeded(old(self).published, tokens),
    {
        if self.published.is_none() {
            self.published = Some(TokenLease { tokens, generation: 0 });
        }
    }

    /// Makes `tokens` current in the next generation and leases them.
    pub fn publish(&mut self, tokens: DayliteTokenState) -> (r: TokenLease)
        requires
            generation_of(old(self).published) < u64::MAX,
        ensures
            r == published_after(old(self).published, tokens),
            final(self).published == Some(r),
    {
        let generation: u64 = match &self.published {
            Some(l) => l.generation + 1,
            None => 1,
        };
        let lease = TokenLease { tokens, generation };
        self.published = Some(copy_lease(&lease));
        lease
    }

    /// The current tokens, if any.
    pub fn current_tokens(&self) -> (r: Option<DayliteTokenState>)
        ensures
            r == (match self.published {
                Some(l) => Some(l.tokens),
                None => None,
            }),
    {
        match &self.published {
            Some(l) => Some(copy_tokens(&l.tokens)),
            None => None,
        }
    }

    /// The current lease if its access token outlives `now + min_remaining`.
    pub fn fresh_lease(&self, now_ms: u64, min_remaining_ms: u64) -> (r: Option<TokenLease>)
        ensures
            r == fresh_lease_spec(self.published, now_ms, min_remaining_ms),
    {
        match &self.published {
            Some(l) => if has_life_left(&l.tokens, now_ms, min_remaining_ms) {
                Some(copy_lease(l))
            } else {
                None
            },
            None => None,
        }
    }

    /// The current lease if it is newer than `generation`: a request that was
    /// rejected with an older lease takes it instead of rotating again.
    pub fn lease_newer_than(&self, generation: u64) -> (r: Option<TokenLease>)
        ensures
            r == lease_newer_spec(self.published, generation),
    {
        match &self.published {
            Some(l) => if l.generation > generation {
                Some(copy_lease(l))
            } else {
                None
            },
            None => None,
        }
    }
}

/// Every publication moves to a strictly newer generation, so a request that
/// was rejected with any lease taken before it finds the new tokens instead of
/// rotating again: a burst of rejections costs one rotation.
pub proof fn law_publication_supersedes_older_leases(
    published: Option<TokenLease>,
    tokens: DayliteTokenState,
    stale_generation: u64,
)
    requires
        generation_of(published) < u64::MAX,
        stale_generation <= generation_of(published),
    ensures
        published_after(published, tokens).generation > generation_of(published),
        lease_newer_spec(Some(published_after(published, tokens)), stale_generation) == Some(
            published_after(published, tokens),
        ),
{
}

/// Seeding never replaces tokens that are already published.
pub proof fn law_seed_keeps_published_tokens(published: TokenLease, seed: DayliteTokenState)
    ensures
        seeded(Some(published), seed) == Some(published),
{
}

/// A lease is fresh only while its access token is not blank and expires
/// after `now + min_remaining`; a token without an expiry is never fresh.
pub proof fn law_fresh_lease_needs_time_left(published: Option<TokenLease>, now_ms: u64, min_remaining_ms: u64)
    ensures
        fresh_lease_spec(published, now_ms, min_remaining_ms) matches Some(l) ==> (l.tokens.access_token_expires_at_ms
            matches Some(e) && e > now_ms && trimmed(l.tokens.access_token@).len() > 0),
{
}

} // verus!
