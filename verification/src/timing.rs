//! Start-time parsing and the one-hour correlation window.

use vstd::prelude::*;
use crate::activity::{ActivityInfoView, ActivitySummaryView, StravaActivitySummary};

verus! {

/// What an activity's start string parses to: its unix timestamp in whole
/// seconds when the string is a valid RFC 3339 timestamp, `None` otherwise.
/// The parse itself is chrono's; its result depends on the characters alone,
/// so it is only named here, never restated.
pub uninterp spec fn parse_start_secs(s: Seq<char>) -> Option<i64>;

/// Relies on chrono's `DateTime::parse_from_rfc3339` to accept exactly the
/// valid RFC 3339 timestamps, and on `DateTime::timestamp` to read the
/// parsed instant as unix seconds; both results depend on the characters of
/// the input alone.
#[verifier::external_body]
fn parse_timestamp_secs(s: &str) -> (r: Option<i64>)
    ensures
        r == parse_start_secs(s@),
{
    match chrono::DateTime::parse_from_rfc3339(s) {
        Ok(dt) => Some(dt.timestamp()),
        Err(_) => None,
    }
}

/// Two start strings lie within the correlation window when both parse and
/// the parsed times differ by at most one hour, boundary included. An
/// unparsable string on either side never matches anything.
pub open spec fn starts_within_window(first: Seq<char>, second: Seq<char>) -> bool {
    match (parse_start_secs(first), parse_start_secs(second)) {
        (Some(x), Some(y)) => vstd::math::abs(x - y) <= 3600,
        _ => false,
    }
}

/// The correlation window on two activity summaries, by their start strings.
pub open spec fn within_window(a: ActivitySummaryView, b: ActivitySummaryView) -> bool {
    starts_within_window(a.start_date, b.start_date)
}

/// The correlation window on the summary fields a match report keeps.
pub open spec fn infos_within_window(a: ActivityInfoView, b: ActivityInfoView) -> bool {
    starts_within_window(a.start_date, b.start_date)
}

/// Decides whether two activities started within one hour of each other,
/// boundary included; an activity whose start string does not parse is
/// within one hour of nothing.
pub fn are_activities_within_one_hour(
    first_activity: &StravaActivitySummary,
    second_activity: &StravaActivitySummary,
) -> (r: bool)
    ensures
        r == within_window(first_activity@, second_activity@),
{
    let first_start: Option<i64> = parse_timestamp_secs(first_activity.start_date.as_str());
    let second_start: Option<i64> = parse_timestamp_secs(second_activity.start_date.as_str());

    match (first_start, second_start) {
        (Some(x), Some(y)) => {
            let difference: i128 = x as i128 - y as i128;
            let magnitude: i128 = if difference < 0 {
                -difference
            } else {
                difference
            };
            magnitude <= 3600
        },
        _ => false,
    }
}

/// The window is symmetric: it only speaks of the distance between the two
/// start times.
pub proof fn lemma_within_window_symmetric(a: ActivitySummaryView, b: ActivitySummaryView)
    ensures
        within_window(a, b) == within_window(b, a),
{
}

/// The window holds exactly when both start strings parse and the parsed
/// times are at most 3600 seconds apart.
pub proof fn lemma_within_window_iff(a: ActivitySummaryView, b: ActivitySummaryView)
    ensures
        within_window(a, b) <==> (parse_start_secs(a.start_date) matches Some(x)
            && parse_start_secs(b.start_date) matches Some(y) && vstd::math::abs(x - y) <= 3600),
{
}

/// An activity whose start string does not parse matches nothing, in either
/// position.
pub proof fn lemma_unparsable_start_never_matches(a: ActivitySummaryView, b: ActivitySummaryView)
    requires
        parse_start_secs(a.start_date) is None || parse_start_secs(b.start_date) is None,
    ensures
        !within_window(a, b),
        !within_window(b, a),
{
}

} // verus!
