//! Startup configuration for the cleanup service.

use vstd::prelude::*;

verus! {

/// The three values the service needs at startup: the application's client
/// id and secret, and a seed refresh token for the first token exchange.
/// The unverified shell fills this in from the process environment.
pub struct Config {
    pub strava_client_id: String,
    pub strava_client_secret: String,
    pub strava_refresh_token: String,
}

} // verus!
