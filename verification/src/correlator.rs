//! The duplicate-correlation cycle: classify one page of activities, pair
//! each fresh indoor duplicate with the first virtual ride starting within
//! one hour, and step through the resulting hide actions.
//!
//! The remote calls themselves (listing, per-activity update) live outside
//! this crate; the cycle is driven as a plan plus a confirmation step per
//! successful update, so everything the cycle decides is verified here.

use vstd::prelude::*;
use crate::activity::{
    is_indoor_duplicate, is_virtual_ride_summary, match_of, is_indoor_bike_activity,
    ActivityInfo, ActivityMatch, ActivityMatchView, ActivitySummaryView, CleanupResult,
    StravaActivitySummary,
};
use crate::processed::ProcessedMemory;
use crate::timing::{are_activities_within_one_hour, infos_within_window, within_window};

verus! {

/// An activity the cycle should act on: an indoor duplicate that is public
/// and has not been hidden by this process before.
pub open spec fn is_hide_candidate(a: ActivitySummaryView, processed: Set<u64>) -> bool {
    is_indoor_duplicate(a) && !a.private && !processed.contains(a.id)
}

/// The indoor-duplicate candidates of one page, in listing order.
pub open spec fn indoor_candidates(s: Seq<ActivitySummaryView>, processed: Set<u64>) -> Seq<
    ActivitySummaryView,
>
    decreases s.len(),
{
    if s.len() == 0 {
        Seq::empty()
    } else if is_hide_candidate(s[0], processed) {
        seq![s[0]] + indoor_candidates(s.drop_first(), processed)
    } else {
        indoor_candidates(s.drop_first(), processed)
    }
}

/// The virtual-ride candidates of one page, in listing order. No distance,
/// privacy or processed filter applies here.
pub open spec fn virtual_rides(s: Seq<ActivitySummaryView>) -> Seq<ActivitySummaryView>
    decreases s.len(),
{
    if s.len() == 0 {
        Seq::empty()
    } else if is_virtual_ride_summary(s[0]) {
        seq![s[0]] + virtual_rides(s.drop_first())
    } else {
        virtual_rides(s.drop_first())
    }
}

/// The first virtual ride, in listing order, whose start time lies within
/// the one-hour window of the indoor candidate: a first-match policy, not a
/// closest-match one.
pub open spec fn first_window_match(
    virtuals: Seq<ActivitySummaryView>,
    indoor: ActivitySummaryView,
) -> Option<ActivitySummaryView>
    decreases virtuals.len(),
{
    if virtuals.len() == 0 {
        None
    } else if within_window(indoor, virtuals[0]) {
        Some(virtuals[0])
    } else {
        first_window_match(virtuals.drop_first(), indoor)
    }
}

/// The pairs one cycle produces: each candidate, in listing order, paired
/// with its first window match, candidates without a match contributing
/// nothing.
pub open spec fn matches_of(
    cands: Seq<ActivitySummaryView>,
    virtuals: Seq<ActivitySummaryView>,
) -> Seq<ActivityMatchView>
    decreases cands.len(),
{
    if cands.len() == 0 {
        Seq::empty()
    } else {
        let rest = matches_of(cands.drop_first(), virtuals);
        match first_window_match(virtuals, cands[0]) {
            Some(v) => seq![match_of(cands[0], v)] + rest,
            None => rest,
        }
    }
}

/// Everything one cycle plans to hide, from one page of activities and the
/// processed record as it stands when the cycle begins.
pub open spec fn planned_matches(
    activities: Seq<ActivitySummaryView>,
    processed: Set<u64>,
) -> Seq<ActivityMatchView> {
    matches_of(indoor_candidates(activities, processed), virtual_rides(activities))
}

/// The ids a sequence of matches hides, in order: the indoor side of each
/// pair.
pub open spec fn hidden_ids(ms: Seq<ActivityMatchView>) -> Seq<u64> {
    ms.map_values(|m: ActivityMatchView| m.indoor_activity.id)
}

/// The views of a sequence of activity summaries.
pub open spec fn summary_views(s: Seq<StravaActivitySummary>) -> Seq<ActivitySummaryView> {
    s.map_values(|a: StravaActivitySummary| a@)
}

/// The views of a sequence of matches.
pub open spec fn match_views(s: Seq<ActivityMatch>) -> Seq<ActivityMatchView> {
    s.map_values(|m: ActivityMatch| m@)
}

/// Keeps the public, not-yet-processed indoor duplicates of one page, in
/// listing order.
fn filter_indoor_candidates(
    activities: &Vec<StravaActivitySummary>,
    processed: &ProcessedMemory,
) -> (r: Vec<StravaActivitySummary>)
    ensures
        summary_views(r@) == indoor_candidates(summary_views(activities@), processed@),
{
    let ghost full = summary_views(activities@);
    let mut result: Vec<StravaActivitySummary> = Vec::new();
    let mut i: usize = 0;
    proof {
        assert(full.skip(0) =~= full);
        assert(summary_views(result@) + indoor_candidates(full, processed@) =~= indoor_candidates(
            full,
            processed@,
        ));
    }
    while i < activities.len()
        invariant
            i <= activities.len(),
            full == summary_views(activities@),
            indoor_candidates(full, processed@) == summary_views(result@) + indoor_candidates(
                full.skip(i as int),
                processed@,
            ),
        decreases activities.len() - i,
    {
        let a = &activities[i];
        proof {
            assert(full.skip(i as int)[0] == a@);
            assert(full.skip(i as int).drop_first() =~= full.skip(i + 1));
        }
        let keep: bool = is_indoor_bike_activity(a) && !a.private && !processed.contains(a.id);
        if keep {
            let ghost old_result = result@;
            result.push(a.clone());
            proof {
                assert(summary_views(result@) =~= summary_views(old_result).push(a@));
                assert(summary_views(old_result) + indoor_candidates(full.skip(i as int), processed@)
                    =~= summary_views(result@) + indoor_candidates(full.skip(i + 1), processed@));
            }
        }
        i += 1;
    }
    proof {
        assert(full.skip(activities@.len() as int) =~= Seq::<ActivitySummaryView>::empty());
        assert(summary_views(result@) + indoor_candidates(
            full.skip(activities@.len() as int),
            processed@,
        ) =~= summary_views(result@));
    }
    result
}

/// Keeps the virtual rides of one page, in listing order.
fn filter_virtual_rides(activities: &Vec<StravaActivitySummary>) -> (r: Vec<
    StravaActivitySummary,
>)
    ensures
        summary_views(r@) == virtual_rides(summary_views(activities@)),
{
    let ghost full = summary_views(activities@);
    let mut result: Vec<StravaActivitySummary> = Vec::new();
    let mut i: usize = 0;
    proof {
        assert(full.skip(0) =~= full);
        assert(summary_views(result@) + virtual_rides(full) =~= virtual_rides(full));
    }
    while i < activities.len()
        invariant
            i <= activities.len(),
            full == summary_views(activities@),
            virtual_rides(full) == summary_views(result@) + virtual_rides(full.skip(i as int)),
        decreases activities.len() - i,
    {
        let a = &activities[i];
        proof {
            assert(full.skip(i as int)[0] == a@);
            assert(full.skip(i as int).drop_first() =~= full.skip(i + 1));
        }
        let keep: bool = a.activity_type == "VirtualRide".to_owned();
        if keep {
            let ghost old_result = result@;
            result.push(a.clone());
            proof {
                assert(summary_views(result@) =~= summary_views(old_result).push(a@));
                assert(summary_views(old_result) + virtual_rides(full.skip(i as int))
                    =~= summary_views(result@) + virtual_rides(full.skip(i + 1)));
            }
        }
        i += 1;
    }
    proof {
        assert(full.skip(activities@.len() as int) =~= Seq::<ActivitySummaryView>::empty());
        assert(summary_views(result@) + virtual_rides(full.skip(activities@.len() as int))
            =~= summary_views(result@));
    }
    result
}

/// Scans the virtual rides in listing order and returns the index of the
/// first one within the one-hour window of the indoor candidate.
fn find_first_window_match(
    virtuals: &Vec<StravaActivitySummary>,
    indoor: &StravaActivitySummary,
) -> (r: Option<usize>)
    ensures
        match r {
            Some(j) => j < virtuals.len() && first_window_match(summary_views(virtuals@), indoor@)
                == Some(virtuals@[j as int]@),
            None => first_window_match(summary_views(virtuals@), indoor@) is None,
        },
{
    let ghost vs = summary_views(virtuals@);
    let mut j: usize = 0;
    proof {
        assert(vs.skip(0) =~= vs);
    }
    while j < virtuals.len()
        invariant
            j <= virtuals.len(),
            vs == summary_views(virtuals@),
            first_window_match(vs, indoor@) == first_window_match(vs.skip(j as int), indoor@),
        decreases virtuals.len() - j,
    {
        proof {
            assert(vs.skip(j as int)[0] == virtuals@[j as int]@);
            assert(vs.skip(j as int).drop_first() =~= vs.skip(j + 1));
        }
        if are_activities_within_one_hour(indoor, &virtuals[j]) {
            return Some(j);
        }
        j += 1;
    }
    proof {
        assert(vs.skip(virtuals@.len() as int) =~= Seq::<ActivitySummaryView>::empty());
    }
    None
}

/// Computes everything one cycle should hide: each public, not-yet-processed
/// zero-distance ride of the page, in listing order, paired with the first
/// virtual ride starting within one hour of it.
pub fn plan_cycle(
    activities: &Vec<StravaActivitySummary>,
    processed: &ProcessedMemory,
) -> (pending: Vec<ActivityMatch>)
    ensures
        match_views(pending@) == planned_matches(summary_views(activities@), processed@),
{
    let candidates = filter_indoor_candidates(activities, processed);
    let virtuals = filter_virtual_rides(activities);
    let ghost cs = summary_views(candidates@);
    let ghost vs = summary_views(virtuals@);
    let mut pending: Vec<ActivityMatch> = Vec::new();
    let mut i: usize = 0;
    proof {
        assert(cs.skip(0) =~= cs);
        assert(match_views(pending@) + matches_of(cs, vs) =~= matches_of(cs, vs));
    }
    while i < candidates.len()
        invariant
            i <= candidates.len(),
            cs == summary_views(candidates@),
            vs == summary_views(virtuals@),
            matches_of(cs, vs) == match_views(pending@) + matches_of(cs.skip(i as int), vs),
        decreases candidates.len() - i,
    {
        let c = &candidates[i];
        proof {
            assert(cs.skip(i as int)[0] == c@);
            assert(cs.skip(i as int).drop_first() =~= cs.skip(i + 1));
        }
        match find_first_window_match(&virtuals, c) {
            Some(j) => {
                let v = &virtuals[j];
                let m = ActivityMatch {
                    indoor_activity: ActivityInfo {
                        id: c.id,
                        name: c.name.clone(),
                        start_date: c.start_date.clone(),
                    },
                    virtual_ride: ActivityInfo {
                        id: v.id,
                        name: v.name.clone(),
                        start_date: v.start_date.clone(),
                    },
                };
                proof {
                    assert(m@ == match_of(c@, v@));
                }
                let ghost old_pending = pending@;
                pending.push(m);
                proof {
                    assert(match_views(pending@) =~= match_views(old_pending).push(m@));
                    assert(match_views(old_pending) + matches_of(cs.skip(i as int), vs)
                        =~= match_views(pending@) + matches_of(cs.skip(i + 1), vs));
                }
            },
            None => {
            },
        }
        i += 1;
    }
    proof {
        assert(cs.skip(candidates@.len() as int) =~= Seq::<ActivitySummaryView>::empty());
        assert(match_views(pending@) + matches_of(cs.skip(candidates@.len() as int), vs)
            =~= match_views(pending@));
    }
    pending
}

/// One cleanup cycle in flight: the full plan for the page, and how many of
/// its hide actions have been confirmed so far. The caller performs one
/// remote update per pending pair, in order, and confirms each success; a
/// failed update simply abandons the state, keeping everything confirmed so
/// far in the processed record.
pub struct CycleState {
    planned: Vec<ActivityMatch>,
    applied: usize,
}

impl CycleState {
    /// The plan this cycle works through.
    pub closed spec fn planned_view(&self) -> Seq<ActivityMatchView> {
        match_views(self.planned@)
    }

    /// How many of the planned hide actions have been confirmed.
    pub closed spec fn applied_count(&self) -> int {
        self.applied as int
    }

    /// The confirmed count never runs ahead of the plan.
    pub open spec fn wf(&self) -> bool {
        0 <= self.applied_count() <= self.planned_view().len()
    }

    /// Plans one cycle over a freshly fetched page of activities.
    pub fn begin(
        activities: &Vec<StravaActivitySummary>,
        processed: &ProcessedMemory,
    ) -> (s: Self)
        ensures
            s.wf(),
            s.applied_count() == 0,
            s.planned_view() == planned_matches(summary_views(activities@), processed@),
    {
        CycleState { planned: plan_cycle(activities, processed), applied: 0 }
    }

    /// The id the caller must hide next, or `None` when every planned hide
    /// action has been confirmed.
    pub fn next_activity_to_hide(&self) -> (r: Option<u64>)
        requires
            self.wf(),
        ensures
            match r {
                Some(id) => self.applied_count() < self.planned_view().len() && id
                    == self.planned_view()[self.applied_count()].indoor_activity.id,
                None => self.applied_count() == self.planned_view().len(),
            },
    {
        if self.applied < self.planned.len() {
            Some(self.planned[self.applied].indoor_activity.id)
        } else {
            None
        }
    }

    /// Confirms that the next planned hide action succeeded remotely:
    /// records its id as processed and moves on to the following pair.
    pub fn confirm_hidden(&mut self, processed: &mut ProcessedMemory)
        requires
            old(self).wf(),
            old(self).applied_count() < old(self).planned_view().len(),
        ensures
            final(self).wf(),
            final(self).planned_view() == old(self).planned_view(),
            final(self).applied_count() == old(self).applied_count() + 1,
            final(processed)@ == old(processed)@.insert(
                old(self).planned_view()[old(self).applied_count()].indoor_activity.id,
            ),
    {
        let n: usize = self.planned.len();
        proof {
            assert(match_views(self.planned@).len() == self.planned@.len());
            assert(self.applied < n);
        }
        processed.insert(self.planned[self.applied].indoor_activity.id);
        self.applied = self.applied + 1;
    }

    /// Assembles the cycle's outcome once every planned hide action has
    /// been confirmed: the hidden ids in order, and the pairs behind them.
    pub fn into_result(self) -> (r: CleanupResult)
        requires
            self.wf(),
            self.applied_count() == self.planned_view().len(),
        ensures
            r@.hidden == hidden_ids(self.planned_view()),
            r@.matches == self.planned_view(),
    {
        let mut hidden: Vec<u64> = Vec::new();
        let mut i: usize = 0;
        while i < self.planned.len()
            invariant
                i <= self.planned.len(),
                hidden@.len() == i,
                forall|k: int|
                    0 <= k < i ==> hidden@[k] == self.planned@[k]@.indoor_activity.id,
            decreases self.planned.len() - i,
        {
            hidden.push(self.planned[i].indoor_activity.id);
            i += 1;
        }
        proof {
            assert(hidden@ =~= hidden_ids(match_views(self.planned@)));
        }
        CleanupResult { hidden, matches: self.planned }
    }
}

proof fn lemma_drop_first_contains<A>(s: Seq<A>, x: A)
    requires
        s.len() > 0,
        s.drop_first().contains(x),
    ensures
        s.contains(x),
{
    let i = choose|i: int| 0 <= i < s.drop_first().len() && s.drop_first()[i] == x;
    assert(s[i + 1] == x);
}

proof fn lemma_cons_rest_contains<A>(h: A, rest: Seq<A>, x: A)
    requires
        rest.contains(x),
    ensures
        (seq![h] + rest).contains(x),
{
    let i = choose|i: int| 0 <= i < rest.len() && rest[i] == x;
    assert((seq![h] + rest)[i + 1] == x);
}

/// A virtual ride the matcher returns always comes from the scanned list
/// and lies within the window of the indoor candidate.
proof fn lemma_first_window_match_sound(
    virtuals: Seq<ActivitySummaryView>,
    indoor: ActivitySummaryView,
)
    ensures
        first_window_match(virtuals, indoor) matches Some(v) ==> within_window(indoor, v)
            && virtuals.contains(v),
    decreases virtuals.len(),
{
    if virtuals.len() == 0 {
    } else if within_window(indoor, virtuals[0]) {
        assert(virtuals.contains(virtuals[0]));
    } else {
        lemma_first_window_match_sound(virtuals.drop_first(), indoor);
        match first_window_match(virtuals.drop_first(), indoor) {
            Some(v) => lemma_drop_first_contains(virtuals, v),
            None => (),
        }
    }
}

/// Every entry of the candidate list passes the candidate filter and comes
/// from the page.
proof fn lemma_indoor_candidates_elements(s: Seq<ActivitySummaryView>, processed: Set<u64>)
    ensures
        forall|i: int|
            0 <= i < indoor_candidates(s, processed).len() ==> is_hide_candidate(
                #[trigger] indoor_candidates(s, processed)[i],
                processed,
            ) && s.contains(indoor_candidates(s, processed)[i]),
    decreases s.len(),
{
    if s.len() == 0 {
    } else {
        lemma_indoor_candidates_elements(s.drop_first(), processed);
        let rest = indoor_candidates(s.drop_first(), processed);
        assert forall|i: int|
            0 <= i < indoor_candidates(s, processed).len() implies is_hide_candidate(
            #[trigger] indoor_candidates(s, processed)[i],
            processed,
        ) && s.contains(indoor_candidates(s, processed)[i]) by {
            let x = indoor_candidates(s, processed)[i];
            if is_hide_candidate(s[0], processed) {
                if i == 0 {
                    assert(x == s[0]);
                    assert(s.contains(s[0]));
                } else {
                    assert(x == rest[i - 1]);
                    lemma_drop_first_contains(s, x);
                }
            } else {
                assert(x == rest[i]);
                lemma_drop_first_contains(s, x);
            }
        }
    }
}

/// Every activity of the page that passes the candidate filter shows up in
/// the candidate list.
proof fn lemma_indoor_candidates_complete(
    s: Seq<ActivitySummaryView>,
    processed: Set<u64>,
    i: int,
)
    requires
        0 <= i < s.len(),
        is_hide_candidate(s[i], processed),
    ensures
        indoor_candidates(s, processed).contains(s[i]),
    decreases s.len(),
{
    let rest = indoor_candidates(s.drop_first(), processed);
    if i == 0 {
        assert(indoor_candidates(s, processed)[0] == s[0]);
        assert(indoor_candidates(s, processed).contains(s[0]));
    } else {
        lemma_indoor_candidates_complete(s.drop_first(), processed, i - 1);
        assert(s.drop_first()[i - 1] == s[i]);
        if is_hide_candidate(s[0], processed) {
            lemma_cons_rest_contains(s[0], rest, s[i]);
        }
    }
}

/// A candidate with a window match always gets its id onto the hidden list.
proof fn lemma_matched_candidate_id_hidden(
    cands: Seq<ActivitySummaryView>,
    virtuals: Seq<ActivitySummaryView>,
    x: ActivitySummaryView,
)
    requires
        cands.contains(x),
        first_window_match(virtuals, x) is Some,
    ensures
        hidden_ids(matches_of(cands, virtuals)).contains(x.id),
    decreases cands.len(),
{
    let ms = matches_of(cands, virtuals);
    let rest = matches_of(cands.drop_first(), virtuals);
    if cands[0] == x {
        assert(ms[0] == match_of(x, first_window_match(virtuals, x)->Some_0));
        assert(hidden_ids(ms)[0] == x.id);
        assert(hidden_ids(ms).contains(x.id));
    } else {
        let i = choose|i: int| 0 <= i < cands.len() && cands[i] == x;
        assert(cands.drop_first()[i - 1] == x);
        assert(cands.drop_first().contains(x));
        lemma_matched_candidate_id_hidden(cands.drop_first(), virtuals, x);
        let k = choose|k: int| 0 <= k < rest.len() && hidden_ids(rest)[k] == x.id;
        match first_window_match(virtuals, cands[0]) {
            Some(v) => {
                assert(ms[k + 1] == rest[k]);
                assert(hidden_ids(ms)[k + 1] == x.id);
                assert(hidden_ids(ms).contains(x.id));
            },
            None => {
                assert(hidden_ids(ms)[k] == x.id);
                assert(hidden_ids(ms).contains(x.id));
            },
        }
    }
}

/// When no candidate has a window match, the cycle plans nothing.
proof fn lemma_matches_of_empty_when_unmatched(
    cands: Seq<ActivitySummaryView>,
    virtuals: Seq<ActivitySummaryView>,
)
    requires
        forall|i: int|
            0 <= i < cands.len() ==> first_window_match(virtuals, #[trigger] cands[i]) is None,
    ensures
        matches_of(cands, virtuals) == Seq::<ActivityMatchView>::empty(),
    decreases cands.len(),
{
    if cands.len() == 0 {
        assert(matches_of(cands, virtuals) =~= Seq::<ActivityMatchView>::empty());
    } else {
        assert(first_window_match(virtuals, cands[0]) is None);
        assert(forall|i: int|
            0 <= i < cands.drop_first().len() ==> #[trigger] cands.drop_first()[i] == cands[i + 1]);
        lemma_matches_of_empty_when_unmatched(cands.drop_first(), virtuals);
    }
}

/// Idempotence across cycles: once every id a cycle planned to hide stands
/// in the processed record, replanning over the same page of activities
/// plans nothing, so nothing is hidden a second time and the hidden list
/// cannot grow.
pub proof fn lemma_cycle_idempotent(
    activities: Seq<ActivitySummaryView>,
    processed: Set<u64>,
    processed_after: Set<u64>,
)
    requires
        forall|id: u64| processed.contains(id) ==> processed_after.contains(id),
        forall|id: u64|
            hidden_ids(planned_matches(activities, processed)).contains(id)
                ==> processed_after.contains(id),
    ensures
        planned_matches(activities, processed_after) == Seq::<ActivityMatchView>::empty(),
{
    let cands2 = indoor_candidates(activities, processed_after);
    let virts = virtual_rides(activities);
    lemma_indoor_candidates_elements(activities, processed_after);
    assert forall|i: int|
        0 <= i < cands2.len() implies first_window_match(virts, #[trigger] cands2[i]) is None by {
        let x = cands2[i];
        assert(is_hide_candidate(x, processed_after));
        assert(activities.contains(x));
        if first_window_match(virts, x) is Some {
            let j = choose|j: int| 0 <= j < activities.len() && activities[j] == x;
            assert(is_hide_candidate(x, processed));
            lemma_indoor_candidates_complete(activities, processed, j);
            lemma_matched_candidate_id_hidden(indoor_candidates(activities, processed), virts, x);
            assert(processed_after.contains(x.id));
            assert(false);
        }
    }
    lemma_matches_of_empty_when_unmatched(cands2, virts);
}

/// Each planned pair lies within the window, and its indoor id is the id of
/// some candidate.
proof fn lemma_matches_of_sound(
    cands: Seq<ActivitySummaryView>,
    virtuals: Seq<ActivitySummaryView>,
)
    ensures
        forall|k: int|
            0 <= k < matches_of(cands, virtuals).len() ==> infos_within_window(
                #[trigger] matches_of(cands, virtuals)[k].indoor_activity,
                matches_of(cands, virtuals)[k].virtual_ride,
            ) && exists|i: int|
                0 <= i < cands.len() && matches_of(cands, virtuals)[k].indoor_activity.id
                    == cands[i].id,
    decreases cands.len(),
{
    if cands.len() == 0 {
    } else {
        lemma_matches_of_sound(cands.drop_first(), virtuals);
        lemma_first_window_match_sound(virtuals, cands[0]);
        let ms = matches_of(cands, virtuals);
        let rest = matches_of(cands.drop_first(), virtuals);
        assert forall|k: int|
            0 <= k < ms.len() implies infos_within_window(
            #[trigger] ms[k].indoor_activity,
            ms[k].virtual_ride,
        ) && exists|i: int|
            0 <= i < cands.len() && ms[k].indoor_activity.id == cands[i].id by {
            match first_window_match(virtuals, cands[0]) {
                Some(v) => {
                    if k == 0 {
                        assert(ms[0] == match_of(cands[0], v));
                        assert(within_window(cands[0], v));
                        assert(ms[0].indoor_activity.id == cands[0].id);
                    } else {
                        assert(ms[k] == rest[k - 1]);
                        let i = choose|i: int|
                            0 <= i < cands.drop_first().len() && rest[k - 1].indoor_activity.id
                                == cands.drop_first()[i].id;
                        assert(cands.drop_first()[i] == cands[i + 1]);
                        assert(ms[k].indoor_activity.id == cands[i + 1].id);
                    }
                },
                None => {
                    assert(ms[k] == rest[k]);
                    let i = choose|i: int|
                        0 <= i < cands.drop_first().len() && rest[k].indoor_activity.id
                            == cands.drop_first()[i].id;
                    assert(cands.drop_first()[i] == cands[i + 1]);
                    assert(ms[k].indoor_activity.id == cands[i + 1].id);
                },
            }
        }
    }
}

/// Distinct candidate ids give distinct indoor ids across the planned
/// pairs.
proof fn lemma_matches_of_distinct_ids(
    cands: Seq<ActivitySummaryView>,
    virtuals: Seq<ActivitySummaryView>,
)
    requires
        forall|i: int, j: int| 0 <= i < j < cands.len() ==> cands[i].id != cands[j].id,
    ensures
        forall|i: int, j: int|
            0 <= i < j < matches_of(cands, virtuals).len() ==> matches_of(cands, virtuals)[i].indoor_activity.id
                != matches_of(cands, virtuals)[j].indoor_activity.id,
    decreases cands.len(),
{
    if cands.len() == 0 {
    } else {
        assert(forall|i: int|
            0 <= i < cands.drop_first().len() ==> #[trigger] cands.drop_first()[i] == cands[i + 1]);
        lemma_matches_of_distinct_ids(cands.drop_first(), virtuals);
        lemma_matches_of_sound(cands.drop_first(), virtuals);
        let ms = matches_of(cands, virtuals);
        let rest = matches_of(cands.drop_first(), virtuals);
        assert forall|i: int, j: int|
            0 <= i < j < ms.len() implies ms[i].indoor_activity.id
            != ms[j].indoor_activity.id by {
            match first_window_match(virtuals, cands[0]) {
                Some(v) => {
                    if i == 0 {
                        assert(ms[0].indoor_activity.id == cands[0].id);
                        assert(ms[j] == rest[j - 1]);
                        let w = choose|w: int|
                            0 <= w < cands.drop_first().len() && rest[j - 1].indoor_activity.id
                                == cands.drop_first()[w].id;
                        assert(ms[j].indoor_activity.id == cands[w + 1].id);
                        assert(cands[0].id != cands[w + 1].id);
                    } else {
                        assert(ms[i] == rest[i - 1]);
                        assert(ms[j] == rest[j - 1]);
                    }
                },
                None => {
                    assert(ms[i] == rest[i]);
                    assert(ms[j] == rest[j]);
                },
            }
        }
    }
}

/// Hidden ids and match entries correspond one to one. The k-th hidden id
/// is exactly the indoor id of the k-th match; when the page carries
/// distinct ids, no other match carries that id; and every pair's two
/// start timestamps lie within the one-hour window.
pub proof fn lemma_hidden_matches_correspond(
    activities: Seq<ActivitySummaryView>,
    processed: Set<u64>,
)
    requires
        forall|i: int, j: int|
            0 <= i < j < activities.len() ==> activities[i].id != activities[j].id,
    ensures
        ({
            let ms = planned_matches(activities, processed);
            let hid = hidden_ids(ms);
            &&& hid.len() == ms.len()
            &&& forall|k: int| 0 <= k < ms.len() ==> hid[k] == #[trigger] ms[k].indoor_activity.id
            &&& forall|i: int, j: int|
                0 <= i < j < ms.len() ==> ms[i].indoor_activity.id != ms[j].indoor_activity.id
            &&& forall|k: int|
                0 <= k < ms.len() ==> infos_within_window(
                    #[trigger] ms[k].indoor_activity,
                    ms[k].virtual_ride,
                )
        }),
{
    let cands = indoor_candidates(activities, processed);
    let virts = virtual_rides(activities);
    lemma_indoor_candidates_elements(activities, processed);
    assert forall|i: int, j: int| 0 <= i < j < cands.len() implies cands[i].id != cands[j].id by {
        lemma_indoor_candidates_distinct_ids(activities, processed, i, j);
    }
    lemma_matches_of_distinct_ids(cands, virts);
    lemma_matches_of_sound(cands, virts);
}

/// Two distinct positions of the candidate list never carry the same id
/// when the page itself carries distinct ids.
proof fn lemma_indoor_candidates_distinct_ids(
    s: Seq<ActivitySummaryView>,
    processed: Set<u64>,
    i: int,
    j: int,
)
    requires
        forall|a: int, b: int| 0 <= a < b < s.len() ==> s[a].id != s[b].id,
        0 <= i < j < indoor_candidates(s, processed).len(),
    ensures
        indoor_candidates(s, processed)[i].id != indoor_candidates(s, processed)[j].id,
    decreases s.len(),
{
    let cands = indoor_candidates(s, processed);
    let rest = indoor_candidates(s.drop_first(), processed);
    assert(forall|a: int|
        0 <= a < s.drop_first().len() ==> #[trigger] s.drop_first()[a] == s[a + 1]);
    if is_hide_candidate(s[0], processed) {
        if i == 0 {
            lemma_indoor_candidates_elements(s.drop_first(), processed);
            assert(cands[j] == rest[j - 1]);
            let x = rest[j - 1];
            assert(s.drop_first().contains(x));
            let w = choose|w: int| 0 <= w < s.drop_first().len() && s.drop_first()[w] == x;
            assert(s[w + 1] == x);
            assert(s[0].id != s[w + 1].id);
        } else {
            assert(cands[i] == rest[i - 1]);
            assert(cands[j] == rest[j - 1]);
            lemma_indoor_candidates_distinct_ids(s.drop_first(), processed, i - 1, j - 1);
        }
    } else {
        assert(cands[i] == rest[i]);
        assert(cands[j] == rest[j]);
        lemma_indoor_candidates_distinct_ids(s.drop_first(), processed, i, j);
    }
}

} // verus!
