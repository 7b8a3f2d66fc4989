//! The profile of a workspace: how it is read back, and how observations change it.

use vstd::prelude::*;

use crate::contracts::{
    StatisticsObservation, StatisticsObservationView, StatisticsProfile, StatisticsProfileView,
    PROFILE_VERSION,
};
use crate::merge::merge_observation;

verus! {

/// The profiles of workspaces. `layout` says where they are kept; only the code that reads and
/// writes them looks at it.
#[derive(Debug, Clone)]
pub struct StatisticsStore<L> {
    pub layout: L,
}

/// The view of a profile, if there is one.
pub open spec fn stored_view(stored: Option<StatisticsProfile>) -> Option<StatisticsProfileView> {
    match stored {
        Some(profile) => Some(profile@),
        None => None,
    }
}

/// A profile that was kept, if there is one, as it is read back: one of another version counts for
/// nothing.
pub open spec fn loaded(stored: Option<StatisticsProfileView>) -> StatisticsProfileView {
    match stored {
        Some(profile) if profile.version == PROFILE_VERSION => profile,
        _ => crate::contracts::empty_profile(),
    }
}

/// Some observation speaks of a whole table.
pub open spec fn has_table_global(observed: Seq<StatisticsObservationView>) -> bool {
    exists|i: int| 0 <= i < observed.len() && (#[trigger] observed[i]).scope is TableGlobal
}

/// The profile to be kept after observations: what is read back of the one that was kept before, with
/// the observations merged into it. There is none where no observation speaks of a whole table.
pub open spec fn kept(
    stored: Option<StatisticsProfileView>,
    observed: Seq<StatisticsObservationView>,
) -> Option<StatisticsProfileView> {
    if has_table_global(observed) {
        Some(crate::merge::merged_profiles(loaded(stored), observed))
    } else {
        None
    }
}

/// Whether some observation speaks of a whole table. Without one a profile need not be touched.
pub fn any_table_global(observed: &[StatisticsObservation]) -> (result: bool)
    ensures
        result == has_table_global(crate::contracts::observations(observed@)),
{
    let ghost all = crate::contracts::observations(observed@);
    for i in 0..observed.len()
        invariant
            all == crate::contracts::observations(observed@),
            forall|k: int| 0 <= k < i ==> !((#[trigger] all[k]).scope is TableGlobal),
    {
        assert(all[i as int] == observed@[i as int]@);
        if observed[i].scope.is_table_global() {
            return true;
        }
    }
    false
}

impl<L> StatisticsStore<L> {
    /// A store that keeps its profiles in a layout.
    pub fn new(layout: L) -> (store: Self)
        ensures
            store.layout == layout,
    {
        StatisticsStore { layout }
    }

    /// The profile of a workspace, from what was kept of it.
    pub fn load_profile(&self, stored: Option<StatisticsProfile>) -> (profile: StatisticsProfile)
        ensures
            profile@ == loaded(stored_view(stored)),
    {
        self.load_unlocked(stored)
    }

    /// Merges observations into what was kept of a workspace, one by one, and gives the profile to
    /// be kept. There is nothing to be kept where no observation speaks of a whole table.
    pub fn merge_observations(
        &self,
        stored: Option<StatisticsProfile>,
        observed: &[StatisticsObservation],
    ) -> (result: Option<StatisticsProfile>)
        ensures
            stored_view(result) == kept(
                stored_view(stored),
                crate::contracts::observations(observed@),
            ),
    {
        if !any_table_global(observed) {
            return None;
        }
        let ghost all = crate::contracts::observations(observed@);
        let mut profile = self.load_unlocked(stored);
        let ghost before = profile@;
        assert(all.take(0) =~= Seq::empty());
        for i in 0..observed.len()
            invariant
                all == crate::contracts::observations(observed@),
                profile@ == crate::merge::merged_profiles(before, all.take(i as int)),
        {
            assert(all.take(i + 1).drop_last() =~= all.take(i as int));
            assert(all.take(i + 1).last() == observed@[i as int]@);
            merge_observation(&mut profile, &observed[i]);
        }
        assert(all.take(all.len() as int) =~= all);
        Some(profile)
    }

    /// The profile of a workspace, from what was kept of it: nothing, or a profile of any version.
    pub fn load_unlocked(&self, stored: Option<StatisticsProfile>) -> (profile: StatisticsProfile)
        ensures
            profile@ == loaded(stored_view(stored)),
    {
        match stored {
            Some(profile) => if profile.version == PROFILE_VERSION {
                profile
            } else {
                StatisticsProfile::empty()
            },
            None => StatisticsProfile::empty(),
        }
    }
}

} // verus!
