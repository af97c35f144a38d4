use strava_dedup::activity::UpdateDetails;
use strava_dedup::token::{TokenResponse, TokenState};

#[test]
fn test_fresh_token_state_always_needs_refresh() {
    let state = TokenState::new("seed-refresh".to_string());
    assert_eq!(state.access_token, "");
    assert_eq!(state.refresh_token, "seed-refresh");
    assert_eq!(state.expires_at, 0);
    assert!(state.is_token_expired(0));
    assert!(state.is_token_expired(1_700_000_000));
}

#[test]
fn test_token_expiry_buffer_boundary() {
    let state = TokenState {
        access_token: "token".to_string(),
        refresh_token: "refresh".to_string(),
        expires_at: 1_000,
    };
    // Exactly 300 seconds of margin left: not yet expiring.
    assert!(!state.is_token_expired(700));
    // One second less of margin: expiring.
    assert!(state.is_token_expired(701));
    // Far in the past relative to expiry: fine.
    assert!(!state.is_token_expired(0));
}

#[test]
fn test_refresh_replaces_whole_credential() {
    let mut state = TokenState::new("seed".to_string());
    state.apply_refresh(TokenResponse {
        access_token: "fresh-access".to_string(),
        refresh_token: "rotated-refresh".to_string(),
        expires_at: 2_000_000_000,
    });
    assert_eq!(state.access_token, "fresh-access");
    assert_eq!(state.refresh_token, "rotated-refresh");
    assert_eq!(state.expires_at, 2_000_000_000);
    assert!(!state.is_token_expired(1_999_999_700));
}

#[test]
fn test_hide_from_feed_patch_sets_only_visibility() {
    let patch = UpdateDetails::hide_from_feed();
    assert_eq!(patch.hide_from_home, Some(true));
    assert!(patch.name.is_none());
    assert!(patch.description.is_none());
    assert!(patch.commute.is_none());
    assert!(patch.trainer.is_none());
    assert!(patch.sport_type.is_none());
    assert!(patch.gear_id.is_none());
}

#[test]
fn test_default_patch_changes_nothing() {
    let patch = UpdateDetails::default();
    assert!(patch.hide_from_home.is_none());
    assert!(patch.name.is_none());
    assert!(patch.description.is_none());
    assert!(patch.commute.is_none());
    assert!(patch.trainer.is_none());
    assert!(patch.sport_type.is_none());
    assert!(patch.gear_id.is_none());
}
