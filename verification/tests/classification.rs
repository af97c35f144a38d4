use strava_dedup::activity::{is_indoor_bike_activity, StravaActivitySummary};
use strava_dedup::timing::are_activities_within_one_hour;

fn create_activity(
    id: u64,
    name: &str,
    activity_type: &str,
    start_date: &str,
    distance: u64,
    private: bool,
) -> StravaActivitySummary {
    StravaActivitySummary {
        id,
        name: name.to_string(),
        activity_type: activity_type.to_string(),
        start_date: start_date.to_string(),
        distance,
        private,
    }
}

#[test]
fn test_is_indoor_bike_activity() {
    let indoor_bike = create_activity(1, "Indoor Bike", "Ride", "2025-01-01T10:00:00Z", 0, false);
    let outdoor_bike = create_activity(
        2,
        "Outdoor Bike",
        "Ride",
        "2025-01-01T10:00:00Z",
        25000,
        false,
    );
    let run = create_activity(3, "Run", "Run", "2025-01-01T10:00:00Z", 0, false);

    assert!(is_indoor_bike_activity(&indoor_bike));
    assert!(!is_indoor_bike_activity(&outdoor_bike));
    assert!(!is_indoor_bike_activity(&run));
}

#[test]
fn test_are_activities_within_one_hour() {
    let base_time = "2025-01-01T10:00:00Z";
    let within_hour = "2025-01-01T10:30:00Z";
    let beyond_hour = "2025-01-01T11:30:00Z";
    let before_hour = "2025-01-01T09:30:00Z";

    let activity1 = create_activity(1, "Activity 1", "Ride", base_time, 0, false);
    let activity2 = create_activity(2, "Activity 2", "VirtualRide", within_hour, 25000, false);
    let activity3 = create_activity(3, "Activity 3", "VirtualRide", beyond_hour, 25000, false);
    let activity4 = create_activity(4, "Activity 4", "VirtualRide", before_hour, 25000, false);

    assert!(are_activities_within_one_hour(&activity1, &activity2));
    assert!(!are_activities_within_one_hour(&activity1, &activity3));
    assert!(are_activities_within_one_hour(&activity1, &activity4));
}

#[test]
fn test_activities_exactly_one_hour_apart_are_within_range() {
    let base_time = "2025-01-01T10:00:00Z";
    let exactly_one_hour = "2025-01-01T11:00:00Z";

    let activity1 = create_activity(1, "Activity 1", "Ride", base_time, 0, false);
    let activity2 = create_activity(
        2,
        "Activity 2",
        "VirtualRide",
        exactly_one_hour,
        25000,
        false,
    );

    assert!(are_activities_within_one_hour(&activity1, &activity2));
}

#[test]
fn test_are_activities_within_one_hour_invalid_dates() {
    let valid_time = "2025-01-01T10:00:00Z";
    let invalid_time = "not-a-date";

    let activity1 = create_activity(1, "Activity 1", "Ride", valid_time, 0, false);
    let activity2 = create_activity(2, "Activity 2", "VirtualRide", invalid_time, 25000, false);

    assert!(!are_activities_within_one_hour(&activity1, &activity2));
    assert!(!are_activities_within_one_hour(&activity2, &activity1));
}

#[test]
fn test_symmetry_on_valid_dates() {
    let a = create_activity(1, "A", "Ride", "2025-06-01T08:15:00Z", 0, false);
    let b = create_activity(2, "B", "VirtualRide", "2025-06-01T08:45:30Z", 20000, false);

    assert_eq!(
        are_activities_within_one_hour(&a, &b),
        are_activities_within_one_hour(&b, &a)
    );
}

#[test]
fn test_one_second_beyond_window_does_not_match() {
    let a = create_activity(1, "A", "Ride", "2025-01-01T10:00:00Z", 0, false);
    let b = create_activity(2, "B", "VirtualRide", "2025-01-01T11:00:01Z", 25000, false);

    assert!(!are_activities_within_one_hour(&a, &b));
}

#[test]
fn test_offset_timestamps_compare_in_utc() {
    // 11:00:00+01:00 is 10:00:00 UTC, so these two start at the same instant.
    let a = create_activity(1, "A", "Ride", "2025-01-01T10:00:00Z", 0, false);
    let b = create_activity(2, "B", "VirtualRide", "2025-01-01T11:00:00+01:00", 25000, false);

    assert!(are_activities_within_one_hour(&a, &b));
}

#[test]
fn test_privacy_does_not_change_classification() {
    let public_one = create_activity(1, "A", "Ride", "2025-01-01T10:00:00Z", 0, false);
    let private_one = create_activity(1, "A", "Ride", "2025-01-01T10:00:00Z", 0, true);

    assert_eq!(
        is_indoor_bike_activity(&public_one),
        is_indoor_bike_activity(&private_one)
    );
}
