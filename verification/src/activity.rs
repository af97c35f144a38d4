//! The activity data model: summaries as the remote listing reports them,
//! the classification of indoor duplicates, and the per-cycle result types.

use vstd::prelude::*;

verus! {

/// Spec-level picture of one activity summary, with the string fields as
/// character sequences.
pub struct ActivitySummaryView {
    pub id: u64,
    pub name: Seq<char>,
    pub activity_type: Seq<char>,
    pub start_date: Seq<char>,
    pub distance: u64,
    pub private: bool,
}

/// One activity as the remote listing reports it: a stable remote-assigned
/// id, a display name, the activity type tag, an RFC 3339 start timestamp,
/// the distance in whole meters, and the privacy flag. A snapshot, never
/// mutated locally.
pub struct StravaActivitySummary {
    pub id: u64,
    pub name: String,
    pub activity_type: String,
    pub start_date: String,
    pub distance: u64,
    pub private: bool,
}

impl View for StravaActivitySummary {
    type V = ActivitySummaryView;

    open spec fn view(&self) -> ActivitySummaryView {
        ActivitySummaryView {
            id: self.id,
            name: self.name@,
            activity_type: self.activity_type@,
            start_date: self.start_date@,
            distance: self.distance,
            private: self.private,
        }
    }
}

impl Clone for StravaActivitySummary {
    fn clone(&self) -> (r: Self)
        ensures
            r@ == self@,
    {
        StravaActivitySummary {
            id: self.id,
            name: self.name.clone(),
            activity_type: self.activity_type.clone(),
            start_date: self.start_date.clone(),
            distance: self.distance,
            private: self.private,
        }
    }
}

/// An activity is an indoor-duplicate candidate by its own fields alone when
/// it is tagged as a plain ride but covers no distance: the shape a trainer
/// session takes when it is uploaded under the generic type.
pub open spec fn is_indoor_duplicate(a: ActivitySummaryView) -> bool {
    a.activity_type == "Ride"@ && a.distance == 0
}

/// An activity the remote service itself tagged as a trainer/simulator
/// session.
pub open spec fn is_virtual_ride_summary(a: ActivitySummaryView) -> bool {
    a.activity_type == "VirtualRide"@
}

/// Classifies an activity as an indoor-duplicate candidate: a plain ride
/// with zero distance. Name and privacy play no part here; privacy and the
/// processed set are filtered at the cycle level.
pub fn is_indoor_bike_activity(activity: &StravaActivitySummary) -> (r: bool)
    ensures
        r == is_indoor_duplicate(activity@),
{
    let is_ride_type: bool = activity.activity_type == "Ride".to_owned();
    let is_zero_distance: bool = activity.distance == 0;

    is_ride_type && is_zero_distance
}

/// The classification of an indoor duplicate depends only on the activity
/// type and the distance, never on the name or the privacy flag.
pub proof fn lemma_indoor_duplicate_ignores_other_fields(a: ActivitySummaryView, b: ActivitySummaryView)
    requires
        a.activity_type == b.activity_type,
        a.distance == b.distance,
    ensures
        is_indoor_duplicate(a) == is_indoor_duplicate(b),
{
}

/// Spec-level picture of an `ActivityInfo`.
pub struct ActivityInfoView {
    pub id: u64,
    pub name: Seq<char>,
    pub start_date: Seq<char>,
}

/// The part of an activity that a match report keeps: id, name and start
/// timestamp.
pub struct ActivityInfo {
    pub id: u64,
    pub name: String,
    pub start_date: String,
}

impl View for ActivityInfo {
    type V = ActivityInfoView;

    open spec fn view(&self) -> ActivityInfoView {
        ActivityInfoView { id: self.id, name: self.name@, start_date: self.start_date@ }
    }
}

impl Clone for ActivityInfo {
    fn clone(&self) -> (r: Self)
        ensures
            r@ == self@,
    {
        ActivityInfo {
            id: self.id,
            name: self.name.clone(),
            start_date: self.start_date.clone(),
        }
    }
}

/// The summary fields a match report keeps of an activity.
pub open spec fn info_of(a: ActivitySummaryView) -> ActivityInfoView {
    ActivityInfoView { id: a.id, name: a.name, start_date: a.start_date }
}

/// Spec-level picture of an `ActivityMatch`.
pub struct ActivityMatchView {
    pub indoor_activity: ActivityInfoView,
    pub virtual_ride: ActivityInfoView,
}

/// One correlated pair: the zero-distance indoor duplicate and the virtual
/// ride it was matched against.
pub struct ActivityMatch {
    pub indoor_activity: ActivityInfo,
    pub virtual_ride: ActivityInfo,
}

impl View for ActivityMatch {
    type V = ActivityMatchView;

    open spec fn view(&self) -> ActivityMatchView {
        ActivityMatchView {
            indoor_activity: self.indoor_activity@,
            virtual_ride: self.virtual_ride@,
        }
    }
}

impl Clone for ActivityMatch {
    fn clone(&self) -> (r: Self)
        ensures
            r@ == self@,
    {
        ActivityMatch {
            indoor_activity: self.indoor_activity.clone(),
            virtual_ride: self.virtual_ride.clone(),
        }
    }
}

/// The pair a matched indoor duplicate and virtual ride produce.
pub open spec fn match_of(indoor: ActivitySummaryView, virtual_ride: ActivitySummaryView) -> ActivityMatchView {
    ActivityMatchView { indoor_activity: info_of(indoor), virtual_ride: info_of(virtual_ride) }
}

/// Spec-level picture of a `CleanupResult`.
pub struct CleanupResultView {
    pub hidden: Seq<u64>,
    pub matches: Seq<ActivityMatchView>,
}

/// The outcome of one cleanup cycle: the ids hidden this cycle, in the
/// order they were hidden, and the correlated pairs behind them.
pub struct CleanupResult {
    pub hidden: Vec<u64>,
    pub matches: Vec<ActivityMatch>,
}

impl View for CleanupResult {
    type V = CleanupResultView;

    open spec fn view(&self) -> CleanupResultView {
        CleanupResultView {
            hidden: self.hidden@,
            matches: self.matches@.map_values(|m: ActivityMatch| m@),
        }
    }
}

/// The sparse update payload for one remote activity: only fields that are
/// `Some` are transmitted; an unset field leaves the remote value as it is.
pub struct UpdateDetails {
    pub hide_from_home: Option<bool>,
    pub name: Option<String>,
    pub description: Option<String>,
    pub commute: Option<bool>,
    pub trainer: Option<bool>,
    pub sport_type: Option<String>,
    pub gear_id: Option<String>,
}

impl Default for UpdateDetails {
    /// The empty patch: no field set, so nothing would change remotely.
    fn default() -> (d: Self)
        ensures
            d.hide_from_home is None,
            d.name is None,
            d.description is None,
            d.commute is None,
            d.trainer is None,
            d.sport_type is None,
            d.gear_id is None,
    {
        UpdateDetails {
            hide_from_home: None,
            name: None,
            description: None,
            commute: None,
            trainer: None,
            sport_type: None,
            gear_id: None,
        }
    }
}

impl UpdateDetails {
    /// The patch the cleanup cycle applies to a matched indoor duplicate:
    /// set the hide-from-feed flag and touch nothing else.
    pub fn hide_from_feed() -> (d: Self)
        ensures
            d.hide_from_home == Some(true),
            d.name is None,
            d.description is None,
            d.commute is None,
            d.trainer is None,
            d.sport_type is None,
            d.gear_id is None,
    {
        UpdateDetails {
            hide_from_home: Some(true),
            name: None,
            description: None,
            commute: None,
            trainer: None,
            sport_type: None,
            gear_id: None,
        }
    }
}

} // verus!
