//! The OAuth2 credential: the cached access/refresh token pair, its
//! absolute expiry, and the rule that decides when a refresh is due.

use vstd::prelude::*;

verus! {

/// The safety buffer before the recorded expiry during which the token is
/// already treated as expiring, to absorb clock skew and in-flight request
/// latency.
pub const TOKEN_EXPIRY_BUFFER_SECS: u64 = 300;

/// A token counts as expiring once fewer than `TOKEN_EXPIRY_BUFFER_SECS`
/// seconds remain before its recorded expiry (and in particular once it is
/// past its expiry).
pub open spec fn token_expired(expires_at: u64, now: u64) -> bool {
    expires_at < now + TOKEN_EXPIRY_BUFFER_SECS
}

/// The current OAuth2 credential: the bearer token used on every
/// authenticated call, the refresh token for the next grant exchange, and
/// the access token's absolute expiry in unix seconds.
pub struct TokenState {
    pub access_token: String,
    pub refresh_token: String,
    pub expires_at: u64,
}

/// What a successful refresh-token grant exchange returns: a fresh token
/// pair and its absolute expiry in unix seconds.
pub struct TokenResponse {
    pub access_token: String,
    pub refresh_token: String,
    pub expires_at: u64,
}

impl TokenState {
    /// The startup credential: no access token yet, the seed refresh token,
    /// and an expiry of zero, so the very first authenticated call triggers
    /// a refresh.
    pub fn new(initial_refresh_token: String) -> (s: Self)
        ensures
            s.access_token@ == Seq::<char>::empty(),
            s.refresh_token@ == initial_refresh_token@,
            s.expires_at == 0,
    {
        TokenState {
            access_token: String::new(),
            refresh_token: initial_refresh_token,
            expires_at: 0,
        }
    }

    /// Decides whether a refresh is due before the token can be used, given
    /// the current unix time in seconds.
    pub fn is_token_expired(&self, now: u64) -> (r: bool)
        ensures
            r == token_expired(self.expires_at, now),
    {
        self.expires_at.saturating_sub(now) < TOKEN_EXPIRY_BUFFER_SECS
    }

    /// Replaces the whole credential with the outcome of a successful grant
    /// exchange: all three fields change together, so a reader never sees a
    /// mixed credential.
    pub fn apply_refresh(&mut self, response: TokenResponse)
        ensures
            final(self).access_token@ == response.access_token@,
            final(self).refresh_token@ == response.refresh_token@,
            final(self).expires_at == response.expires_at,
    {
        self.access_token = response.access_token;
        self.refresh_token = response.refresh_token;
        self.expires_at = response.expires_at;
    }
}

/// A fresh startup credential is always treated as expiring, whatever the
/// clock says: the first authenticated call must refresh first.
pub proof fn lemma_initial_token_expired(now: u64)
    ensures
        token_expired(0, now),
{
}

} // verus!
