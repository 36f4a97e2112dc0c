//! The splices being tracked for retry, at most one per channel.

use std::collections::HashMap;

use vstd::prelude::*;

use super::contribution::{is_same_splice, same_splice, FundingContribution, FundingContributionView};
use super::pending::{opt_splice, PendingSplice, PendingSpliceView};
use crate::primitives::{OutPoint, UserChannelId};

verus! {

broadcast use vstd::std_specs::hash::group_hash_axioms;

/// The splices being tracked for retry, keyed by the channel's `user_channel_id` — the identifier
/// the splice entry points take and the one that is echoed back on channel events.
pub struct SpliceRegistry {
    splices: HashMap<u128, PendingSplice>,
}

/// What a registry holds for a channel.
pub open spec fn registered(splices: Map<u128, PendingSpliceView>, id: UserChannelId) -> Option<
    PendingSpliceView,
> {
    if splices.contains_key(id.0) {
        Some(splices[id.0])
    } else {
        None
    }
}

/// Whether a registry still holds the splice attempt that `contribution` belongs to.
pub open spec fn still_holds(
    splices: Map<u128, PendingSpliceView>,
    id: UserChannelId,
    contribution: FundingContributionView,
) -> bool {
    registered(splices, id) matches Some(splice) && same_splice(splice.contribution, contribution)
}

/// The splice after one more resubmission, which carries `contribution`.
pub open spec fn resubmitted(
    splice: PendingSpliceView,
    contribution: FundingContributionView,
) -> PendingSpliceView {
    PendingSpliceView { attempts: (splice.attempts + 1) as u8, contribution, ..splice }
}

/// What a newly locked funding makes of the tracked splices: one that was initiated while another
/// funding was in place is obsolete.
pub open spec fn after_lock(
    splices: Map<u128, PendingSpliceView>,
    id: UserChannelId,
    locked_funding_txo: OutPoint,
) -> Map<u128, PendingSpliceView> {
    if registered(splices, id) matches Some(splice) && splice.pre_splice_funding_txo
        != locked_funding_txo {
        splices.remove(id.0)
    } else {
        splices
    }
}

impl View for SpliceRegistry {
    type V = Map<u128, PendingSpliceView>;

    closed spec fn view(&self) -> Map<u128, PendingSpliceView> {
        self.splices@.map_values(|splice: PendingSplice| splice@)
    }
}

impl Default for SpliceRegistry {
    fn default() -> (res: Self)
        ensures
            res@ == Map::<u128, PendingSpliceView>::empty(),
    {
        let res = SpliceRegistry { splices: HashMap::new() };
        assert(res@ =~= Map::<u128, PendingSpliceView>::empty());
        res
    }
}

impl SpliceRegistry {
    /// Tracks `splice`, superseding any tracked one for the channel.
    pub fn register(&mut self, user_channel_id: UserChannelId, splice: PendingSplice)
        ensures
            final(self)@ == old(self)@.insert(user_channel_id.0, splice@),
    {
        self.splices.insert(user_channel_id.0, splice);
        assert(self@ =~= old(self)@.insert(user_channel_id.0, splice@));
    }

    /// Removes the tracked splice if it still carries `contribution`; a mismatch means a newer
    /// splice took the channel's slot and must stay tracked.
    pub fn unregister(
        &mut self,
        user_channel_id: UserChannelId,
        contribution: &FundingContribution,
    )
        ensures
            final(self)@ == if still_holds(old(self)@, user_channel_id, contribution@) {
                old(self)@.remove(user_channel_id.0)
            } else {
                old(self)@
            },
    {
        let same = match self.splices.get(&user_channel_id.0) {
            Some(splice) => is_same_splice(&splice.contribution, contribution),
            None => false,
        };
        if same {
            self.splices.remove(&user_channel_id.0);
            assert(self@ =~= old(self)@.remove(user_channel_id.0));
        }
    }

    /// The tracked splice of the channel.
    pub fn get(&self, user_channel_id: UserChannelId) -> (res: Option<PendingSplice>)
        ensures
            opt_splice(res) == registered(self@, user_channel_id),
    {
        match self.splices.get(&user_channel_id.0) {
            Some(splice) => Some(splice.clone()),
            None => None,
        }
    }

    /// Counts a resubmission: bumps the attempt count and swaps in the contribution being
    /// resubmitted, but only while the tracked splice still carries `prior` — otherwise the splice
    /// moved on (locked, closed, or superseded) and there is nothing to resubmit.
    pub fn record_attempt(
        &mut self,
        user_channel_id: UserChannelId,
        prior: &FundingContribution,
        contribution: FundingContribution,
    ) -> (res: bool)
        requires
            still_holds(old(self)@, user_channel_id, prior@)
                ==> old(self)@[user_channel_id.0].attempts < u8::MAX,
        ensures
            res == still_holds(old(self)@, user_channel_id, prior@),
            final(self)@ == if res {
                old(self)@.insert(
                    user_channel_id.0,
                    resubmitted(old(self)@[user_channel_id.0], contribution@),
                )
            } else {
                old(self)@
            },
    {
        let same = match self.splices.get(&user_channel_id.0) {
            Some(splice) => is_same_splice(&splice.contribution, prior),
            None => false,
        };
        if !same {
            return false;
        }
        match self.splices.remove(&user_channel_id.0) {
            Some(splice) => {
                let splice = PendingSplice {
                    attempts: splice.attempts + 1,
                    contribution,
                    ..splice
                };
                self.splices.insert(user_channel_id.0, splice);
                assert(self@ =~= old(self)@.insert(
                    user_channel_id.0,
                    resubmitted(old(self)@[user_channel_id.0], contribution@),
                ));
                true
            },
            None => false,
        }
    }

    /// Clears a tracked splice that a newly locked funding transaction made obsolete. A tracked
    /// splice whose pre-splice outpoint matches the locked funding was created after the lock and
    /// stays.
    pub fn clear_if_obsoleted(
        &mut self,
        user_channel_id: UserChannelId,
        locked_funding_txo: OutPoint,
    )
        ensures
            final(self)@ == after_lock(old(self)@, user_channel_id, locked_funding_txo),
    {
        let obsolete = match self.splices.get(&user_channel_id.0) {
            Some(splice) => !splice.pre_splice_funding_txo.same(&locked_funding_txo),
            None => false,
        };
        if obsolete {
            self.splices.remove(&user_channel_id.0);
            assert(self@ =~= old(self)@.remove(user_channel_id.0));
        }
    }

    /// Clears any tracked splice for the channel.
    pub fn clear(&mut self, user_channel_id: UserChannelId)
        ensures
            final(self)@ == old(self)@.remove(user_channel_id.0),
    {
        self.splices.remove(&user_channel_id.0);
        assert(self@ =~= old(self)@.remove(user_channel_id.0));
    }
}

} // verus!
