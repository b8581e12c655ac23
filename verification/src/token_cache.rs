//! The cached Google access token: kept for 50 minutes, for one key.
use vstd::prelude::*;

use crate::dictionary::clone_strings;
use crate::text::{str_eq, sviews};

verus! {

/// How long a fetched token is reused, in milliseconds.
pub const GOOGLE_TOKEN_TTL_MS: u64 = 3000000;

/// A token, the setup details that came with it, the key it was fetched
/// for, and when it stops being reused (monotonic milliseconds).
#[derive(Debug, Clone)]
pub struct CachedGoogleToken {
    pub key: String,
    pub token: String,
    pub details: Vec<String>,
    pub expires_at_ms: u64,
}

/// Holds at most one token.
#[derive(Debug)]
pub struct GoogleTokenCache {
    pub entry: Option<CachedGoogleToken>,
}

/// The mathematical value of the cache: key, token, details, expiry.
pub open spec fn cache_view(c: GoogleTokenCache) -> Option<(Seq<char>, Seq<char>, Seq<Seq<char>>, u64)> {
    match c.entry {
        Some(e) => Some((e.key@, e.token@, sviews(e.details@), e.expires_at_ms)),
        None => None,
    }
}

/// What a lookup for `key` at `now` finds: the token and its details when
/// they were fetched for that key and have not expired.
pub open spec fn cached(
    c: Option<(Seq<char>, Seq<char>, Seq<Seq<char>>, u64)>,
    key: Seq<char>,
    now: u64,
) -> Option<(Seq<char>, Seq<Seq<char>>)> {
    match c {
        Some((k, t, d, exp)) => if k == key && now < exp {
            Some((t, d))
        } else {
            None
        },
        None => None,
    }
}

/// When a token stored at `now` expires.
pub open spec fn expiry(now: u64) -> u64 {
    if now + GOOGLE_TOKEN_TTL_MS > u64::MAX {
        u64::MAX
    } else {
        (now + GOOGLE_TOKEN_TTL_MS) as u64
    }
}

impl GoogleTokenCache {
    pub fn new() -> (r: Self)
        ensures
            cache_view(r) is None,
    {
        GoogleTokenCache { entry: None }
    }

    /// The token fetched for `cache_key`, while it is fresh.
    pub fn lookup(&self, cache_key: &str, now: u64) -> (r: Option<(String, Vec<String>)>)
        ensures
            match cached(cache_view(*self), cache_key@, now) {
                Some((t, d)) => r matches Some(x) && x.0@ == t && sviews(x.1@) == d,
                None => r is None,
            },
    {
        match &self.entry {
            Some(e) => {
                if str_eq(e.key.as_str(), cache_key) && now < e.expires_at_ms {
                    Some((e.token.clone(), clone_strings(&e.details)))
                } else {
                    None
                }
            },
            None => None,
        }
    }

    /// Keeps `token` for `cache_key` for the next 50 minutes, in place of any
    /// other; gives back the token and its details.
    pub fn store(&mut self, cache_key: String, token: String, details: Vec<String>, now: u64) -> (r: (
        String,
        Vec<String>,
    ))
        ensures
            cache_view(*final(self)) == Some((cache_key@, token@, sviews(details@), expiry(now))),
            r.0@ == token@,
            sviews(r.1@) == sviews(details@),
    {
        let kept_token = token.clone();
        let kept_details = clone_strings(&details);
        self.entry = Some(CachedGoogleToken {
            key: cache_key,
            token: kept_token,
            details: kept_details,
            expires_at_ms: now.saturating_add(GOOGLE_TOKEN_TTL_MS),
        });
        (token, details)
    }
}

/// A stored token is found again: a lookup with the same key finds the same
/// token and details until 50 minutes after storing, and nothing from then
/// on; a lookup with another key finds nothing.
pub proof fn lemma_stored_token_is_found(
    key: Seq<char>,
    token: Seq<char>,
    details: Seq<Seq<char>>,
    stored_at: u64,
    other: Seq<char>,
    now: u64,
)
    ensures
        now < expiry(stored_at) ==> cached(Some((key, token, details, expiry(stored_at))), key, now)
            == Some((token, details)),
        now >= expiry(stored_at) ==> cached(Some((key, token, details, expiry(stored_at))), key, now)
            is None,
        other != key ==> cached(Some((key, token, details, expiry(stored_at))), other, now) is None,
        stored_at + GOOGLE_TOKEN_TTL_MS <= u64::MAX ==> expiry(stored_at) == stored_at
            + GOOGLE_TOKEN_TTL_MS,
{
}

} // verus!
