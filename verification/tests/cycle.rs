use strava_dedup::activity::StravaActivitySummary;
use strava_dedup::correlator::{plan_cycle, CycleState};
use strava_dedup::processed::ProcessedMemory;

fn create_activity(
    id: u64,
    name: &str,
    activity_type: &str,
    start_date: &str,
    distance: u64,
    private: bool,
) -> StravaActivitySummary {
    StravaActivitySummary {
        id,
        name: name.to_string(),
        activity_type: activity_type.to_string(),
        start_date: start_date.to_string(),
        distance,
        private,
    }
}

/// Drives one cycle to full success: every planned update is confirmed.
fn run_full_cycle(
    activities: &Vec<StravaActivitySummary>,
    processed: &mut ProcessedMemory,
) -> strava_dedup::activity::CleanupResult {
    let mut state = CycleState::begin(activities, processed);
    while state.next_activity_to_hide().is_some() {
        state.confirm_hidden(processed);
    }
    state.into_result()
}

#[test]
fn test_cycle_hides_matched_indoor_ride() {
    let activities = vec![
        create_activity(1, "Morning Ride", "Ride", "2025-01-01T10:00:00Z", 0, false),
        create_activity(
            2,
            "Virtual Session",
            "VirtualRide",
            "2025-01-01T10:30:00Z",
            25000,
            false,
        ),
    ];
    let mut processed = ProcessedMemory::new();

    let result = run_full_cycle(&activities, &mut processed);

    assert_eq!(result.hidden, vec![1]);
    assert_eq!(result.matches.len(), 1);
    assert_eq!(result.matches[0].indoor_activity.id, 1);
    assert_eq!(result.matches[0].virtual_ride.id, 2);
    assert!(processed.contains(1));
    assert!(!processed.contains(2));
}

#[test]
fn test_cycle_skips_private_indoor_ride() {
    let activities = vec![
        create_activity(1, "Morning Ride", "Ride", "2025-01-01T10:00:00Z", 0, true),
        create_activity(
            2,
            "Virtual Session",
            "VirtualRide",
            "2025-01-01T10:30:00Z",
            25000,
            false,
        ),
    ];
    let mut processed = ProcessedMemory::new();

    let result = run_full_cycle(&activities, &mut processed);

    assert!(result.hidden.is_empty());
    assert!(result.matches.is_empty());
    assert!(!processed.contains(1));
}

#[test]
fn test_cycle_respects_window_boundary() {
    // The virtual ride starts one second outside the inclusive one-hour
    // window, so nothing matches and nothing is hidden.
    let activities = vec![
        create_activity(1, "Morning Ride", "Ride", "2025-01-01T10:00:00Z", 0, false),
        create_activity(
            2,
            "Virtual Session",
            "VirtualRide",
            "2025-01-01T11:30:01Z",
            25000,
            false,
        ),
    ];
    let mut processed = ProcessedMemory::new();

    let result = run_full_cycle(&activities, &mut processed);

    assert!(result.hidden.is_empty());
    assert!(result.matches.is_empty());
}

#[test]
fn test_cycle_treats_unparsable_start_as_non_matching() {
    let activities = vec![
        create_activity(1, "Morning Ride", "Ride", "not-a-date", 0, false),
        create_activity(
            2,
            "Virtual Session",
            "VirtualRide",
            "2025-01-01T10:30:00Z",
            25000,
            false,
        ),
    ];
    let mut processed = ProcessedMemory::new();

    let result = run_full_cycle(&activities, &mut processed);

    assert!(result.hidden.is_empty());
    assert!(result.matches.is_empty());
}

#[test]
fn test_second_cycle_hides_nothing_new() {
    let activities = vec![
        create_activity(1, "Morning Ride", "Ride", "2025-01-01T10:00:00Z", 0, false),
        create_activity(
            2,
            "Virtual Session",
            "VirtualRide",
            "2025-01-01T10:30:00Z",
            25000,
            false,
        ),
    ];
    let mut processed = ProcessedMemory::new();

    let first = run_full_cycle(&activities, &mut processed);
    assert_eq!(first.hidden, vec![1]);

    let second = run_full_cycle(&activities, &mut processed);
    assert!(second.hidden.is_empty());
    assert!(second.matches.is_empty());
}

#[test]
fn test_each_hidden_id_has_exactly_one_match() {
    let activities = vec![
        create_activity(1, "Trainer A", "Ride", "2025-01-01T10:00:00Z", 0, false),
        create_activity(3, "Trainer B", "Ride", "2025-01-01T14:00:00Z", 0, false),
        create_activity(
            2,
            "Virtual A",
            "VirtualRide",
            "2025-01-01T10:30:00Z",
            25000,
            false,
        ),
        create_activity(
            4,
            "Virtual B",
            "VirtualRide",
            "2025-01-01T14:30:00Z",
            30000,
            false,
        ),
    ];
    let mut processed = ProcessedMemory::new();

    let result = run_full_cycle(&activities, &mut processed);

    assert_eq!(result.hidden, vec![1, 3]);
    for &id in &result.hidden {
        let entries = result
            .matches
            .iter()
            .filter(|m| m.indoor_activity.id == id)
            .count();
        assert_eq!(entries, 1);
    }
}

#[test]
fn test_first_match_in_listing_order_wins() {
    // Both virtual rides are inside the window; the first one in listing
    // order is chosen, not the nearer one.
    let activities = vec![
        create_activity(1, "Trainer", "Ride", "2025-01-01T10:00:00Z", 0, false),
        create_activity(
            5,
            "Farther Virtual",
            "VirtualRide",
            "2025-01-01T10:50:00Z",
            25000,
            false,
        ),
        create_activity(
            6,
            "Nearer Virtual",
            "VirtualRide",
            "2025-01-01T10:05:00Z",
            25000,
            false,
        ),
    ];
    let mut processed = ProcessedMemory::new();

    let result = run_full_cycle(&activities, &mut processed);

    assert_eq!(result.hidden, vec![1]);
    assert_eq!(result.matches[0].virtual_ride.id, 5);
}

#[test]
fn test_aborted_cycle_keeps_earlier_confirmations() {
    // Two matched pairs; the update for the first one succeeds and is
    // confirmed, then the second update fails and the cycle is abandoned.
    // The first id stays in the processed record, so the next cycle only
    // plans the second pair again.
    let activities = vec![
        create_activity(1, "Trainer A", "Ride", "2025-01-01T10:00:00Z", 0, false),
        create_activity(3, "Trainer B", "Ride", "2025-01-01T14:00:00Z", 0, false),
        create_activity(
            2,
            "Virtual A",
            "VirtualRide",
            "2025-01-01T10:30:00Z",
            25000,
            false,
        ),
        create_activity(
            4,
            "Virtual B",
            "VirtualRide",
            "2025-01-01T14:30:00Z",
            30000,
            false,
        ),
    ];
    let mut processed = ProcessedMemory::new();

    let mut state = CycleState::begin(&activities, &mut processed);
    let first_id = state.next_activity_to_hide().unwrap();
    assert_eq!(first_id, 1);
    state.confirm_hidden(&mut processed);
    let second_id = state.next_activity_to_hide().unwrap();
    assert_eq!(second_id, 3);
    // The second update fails remotely: the state is dropped, no result is
    // produced, and only the confirmed id was recorded.
    drop(state);

    assert!(processed.contains(1));
    assert!(!processed.contains(3));

    let replanned = plan_cycle(&activities, &processed);
    assert_eq!(replanned.len(), 1);
    assert_eq!(replanned[0].indoor_activity.id, 3);
}

#[test]
fn test_processed_ids_are_not_rematched() {
    let activities = vec![
        create_activity(1, "Trainer", "Ride", "2025-01-01T10:00:00Z", 0, false),
        create_activity(
            2,
            "Virtual",
            "VirtualRide",
            "2025-01-01T10:30:00Z",
            25000,
            false,
        ),
    ];
    let mut processed = ProcessedMemory::new();
    processed.insert(1);

    let pending = plan_cycle(&activities, &processed);
    assert!(pending.is_empty());
}

#[test]
fn test_virtual_ride_can_match_twice_in_one_cycle() {
    // Virtual-ride candidates are never removed from the pool, so one
    // virtual ride can be paired with two indoor duplicates in one cycle.
    let activities = vec![
        create_activity(1, "Trainer A", "Ride", "2025-01-01T10:00:00Z", 0, false),
        create_activity(3, "Trainer B", "Ride", "2025-01-01T10:10:00Z", 0, false),
        create_activity(
            2,
            "Virtual",
            "VirtualRide",
            "2025-01-01T10:30:00Z",
            25000,
            false,
        ),
    ];
    let mut processed = ProcessedMemory::new();

    let result = run_full_cycle(&activities, &mut processed);

    assert_eq!(result.hidden, vec![1, 3]);
    assert_eq!(result.matches[0].virtual_ride.id, 2);
    assert_eq!(result.matches[1].virtual_ride.id, 2);
}
