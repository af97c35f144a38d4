//! Verified core of a duplicate-activity cleanup service.
//!
//! An indoor trainer session is often recorded twice on the remote account:
//! once as a zero-distance plain ride and once as a virtual ride. This
//! library holds the verified logic that classifies activities, correlates
//! each indoor duplicate with a virtual ride starting within one hour, and
//! tracks which activities have already been hidden, so that a thin
//! unverified shell only has to perform the HTTP calls.

pub mod activity;
pub mod config;
pub mod correlator;
pub mod processed;
pub mod timing;
pub mod token;
