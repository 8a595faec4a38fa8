//! Admission of votes to the secondary tower.
use crate::lockout::Slot;
use crate::tower::{Tower, TowerModel};
use std::collections::HashSet;
use vstd::prelude::*;

verus! {

broadcast use vstd::std_specs::hash::group_hash_axioms;

/// The number of votes a tower must hold before it is bootstrapped.
pub const VOTE_THRESHOLD_DEPTH: usize = 8;

/// Where a vote comes from: the validator itself, or its hot spare.
#[derive(Clone, Copy, Debug, PartialEq, Eq, Structural)]
pub enum VotingSource {
    Primary,
    Secondary,
}

/// A vote that asks for admission: the slot voted for, the hash of its bank and of its block.
#[derive(Clone, Copy, Debug, PartialEq, Eq)]
pub struct ProposedVote {
    pub slot: Slot,
    pub hash: crate::tower::Hash,
    pub block_id: crate::tower::Hash,
}

/// Why a vote was not admitted.
#[allow(inconsistent_fields)]
#[derive(Clone, Copy, Debug, PartialEq, Eq, Structural)]
pub enum VoteValidatorError {
    /// The tower holds a vote for this slot or for a newer one.
    VoteTooOld { attempted_slot: Slot, last_voted_slot: Option<Slot>, root_slot: Slot },
    /// A vote of the tower that still binds is on another fork.
    LockedOut(Slot),
    /// The tower has no votes and the slot is not newer than its root.
    BootstrapVoteInconsistent {
        attempted_slot: Slot,
        last_voted_slot: Option<Slot>,
        root_slot: Option<Slot>,
    },
    /// The slot does not descend from the tower's root, and the tower cannot be put on one that
    /// it descends from.
    RootMismatch { vote_slot: Slot, tower_root: Slot },
    /// The tower is not bootstrapped yet and the vote is not the validator's own.
    Bootstrapping,
}

/// Whether `candidate` is the highest ancestor below `slot`.
pub open spec fn is_highest_below(ancestors: Set<Slot>, slot: Slot, candidate: Slot) -> bool {
    &&& ancestors.contains(candidate)
    &&& candidate < slot
    &&& forall|other: Slot| #[trigger]
        ancestors.contains(other) && other < slot ==> other <= candidate
}

/// The highest ancestor below `slot`, if any ancestor is below it.
pub open spec fn root_candidate(ancestors: Set<Slot>, slot: Slot) -> Option<Slot> {
    if exists|candidate: Slot| is_highest_below(ancestors, slot, candidate) {
        Some(choose|candidate: Slot| is_highest_below(ancestors, slot, candidate))
    } else {
        None
    }
}

/// Whether `tower` holds enough votes for the hot spare to be heard.
pub open spec fn bootstrapped(tower: TowerModel) -> bool {
    tower.stack.votes.len() >= VOTE_THRESHOLD_DEPTH
}

/// The tower on which a vote for `slot` is judged, as far as root 0 goes: a tower that stands on
/// slot 0 is put on the highest ancestor below `slot` if that slot does not descend from slot 0.
pub open spec fn align_initial_root(tower: TowerModel, slot: Slot, ancestors: Set<Slot>) -> Result<
    TowerModel,
    VoteValidatorError,
> {
    if tower.root() != 0 || ancestors.contains(0) {
        Ok(tower)
    } else {
        match root_candidate(ancestors, slot) {
            Some(root) => Ok(tower.with_root(root)),
            None if slot == 0 => Ok(tower),
            None => Err(VoteValidatorError::RootMismatch { vote_slot: slot, tower_root: 0 }),
        }
    }
}

/// The tower on which a vote for `slot` is judged, as far as any other root goes. The slot must be
/// the root that the vote would leave, or descend from it. If it does not, and the vote would not
/// move the root, the root is stale: the tower is put on the highest ancestor below `slot` and
/// starts over without votes.
pub open spec fn realign_stale_root(tower: TowerModel, slot: Slot, ancestors: Set<Slot>) -> Result<
    TowerModel,
    VoteValidatorError,
> {
    let next_root = tower.stack.after_vote(slot).root_slot->0;
    if tower.root() == 0 || next_root == slot || ancestors.contains(next_root) {
        Ok(tower)
    } else if next_root != tower.root() {
        Err(VoteValidatorError::RootMismatch { vote_slot: slot, tower_root: next_root })
    } else {
        match root_candidate(ancestors, slot) {
            Some(root) => Ok(tower.with_root(root).without_votes()),
            None => Err(
                VoteValidatorError::RootMismatch { vote_slot: slot, tower_root: tower.root() },
            ),
        }
    }
}

/// The verdict on a vote, and the tower that it leaves.
pub open spec fn judge(
    tower: TowerModel,
    vote: ProposedVote,
    ancestors: Set<Slot>,
    source: VotingSource,
) -> (Result<(), VoteValidatorError>, TowerModel) {
    let slot = vote.slot;
    if tower.stack.voted_at_or_after(slot) {
        let error = VoteValidatorError::VoteTooOld {
            attempted_slot: slot,
            last_voted_slot: tower.stack.last_voted_slot(),
            root_slot: tower.root(),
        };
        (Err(error), tower)
    } else if !bootstrapped(tower) && source != VotingSource::Primary {
        (Err(VoteValidatorError::Bootstrapping), tower)
    } else {
        match align_initial_root(tower, slot, ancestors) {
            Err(error) => (Err(error), tower),
            Ok(aligned) => match realign_stale_root(aligned, slot, ancestors) {
                Err(error) => (Err(error), aligned),
                Ok(settled) => if !settled.stack.is_recent(slot) {
                    let error = VoteValidatorError::BootstrapVoteInconsistent {
                        attempted_slot: slot,
                        last_voted_slot: None,
                        root_slot: settled.stack.root_slot,
                    };
                    (Err(error), settled)
                } else if settled.stack.conflicts_with(slot, ancestors) {
                    (Err(VoteValidatorError::LockedOut(slot)), settled)
                } else {
                    (Ok(()), settled.after_vote(slot, vote.hash@, vote.block_id@))
                },
            },
        }
    }
}

/// Whether [`judge`] covers a vote for `slot`. It leaves out a slot that descends from root 0 and
/// is not locked out, but whose vote would move the root off its fork.
pub open spec fn is_judgeable(tower: TowerModel, slot: Slot, ancestors: Set<Slot>) -> bool {
    tower.root() == 0 && ancestors.contains(0) ==> tower.stack.lockout_is_decided(slot, ancestors)
}

/// The highest ancestor below `slot`, if any ancestor is below it.
pub fn highest_ancestor_below(ancestors: &HashSet<Slot>, slot: Slot) -> (candidate: Option<Slot>)
    ensures
        candidate == root_candidate(ancestors@, slot),
{
    let mut candidate: Option<Slot> = None;
    for ancestor in it: ancestors.iter()
        invariant
            it.seq().unref().to_set() == ancestors@,
            match candidate {
                Some(c) => ancestors@.contains(c) && c < slot,
                None => true,
            },
            forall|a: Slot| #[trigger]
                ancestors@.contains(a) && a < slot ==> (candidate is Some && a <= candidate->0)
                    || exists|k: int|
                    it.index() <= k < it.seq().len() && *#[trigger] it.seq()[k] == a,
    {
        let a: Slot = *ancestor;
        assert(it.seq().unref()[it.index() as int] == a);
        assert(it.seq().unref().to_set().contains(a));
        if a < slot {
            match candidate {
                Some(c) => {
                    if a > c {
                        candidate = Some(a);
                    }
                },
                None => {
                    candidate = Some(a);
                },
            }
        }
    }
    proof {
        if let Some(c) = candidate {
            assert(is_highest_below(ancestors@, slot, c));
        }
    }
    candidate
}

/// What votes of the validator and of its hot spare must get past to reach the cluster: it keeps
/// a tower of its own and admits the first vote for a slot that this tower allows.
#[derive(Debug)]
pub struct TowerVoteValidator {
    pub tower: Tower,
}

impl View for TowerVoteValidator {
    type V = TowerModel;

    open spec fn view(&self) -> TowerModel {
        self.tower@
    }
}

impl TowerVoteValidator {
    /// A validator with a fresh tower.
    pub fn new() -> (validator: Self)
        ensures
            validator@ == TowerModel::fresh(),
            validator@.is_sound(),
    {
        let tower = Tower::default();
        TowerVoteValidator { tower }
    }

    /// Whether the tower holds enough votes for the hot spare to be heard.
    pub fn is_bootstrapped(&self) -> (enough: bool)
        ensures
            enough == bootstrapped(self@),
            enough <==> self.tower.vote_state.votes@.len() >= VOTE_THRESHOLD_DEPTH,
    {
        self.tower.vote_state.votes.len() >= VOTE_THRESHOLD_DEPTH
    }

    /// Whether [`TowerVoteValidator::try_add_vote`] has a verdict on a vote for `slot`.
    pub fn can_judge(&self, slot: Slot, ancestors: &HashSet<Slot>) -> (judgeable: bool)
        requires
            self@.stack.root_slot is Some,
        ensures
            judgeable == is_judgeable(self@, slot, ancestors@),
    {
        if self.tower.root() == 0 && ancestors.contains(&0) {
            self.tower.lockout_is_decided(slot, ancestors)
        } else {
            true
        }
    }

    /// Judges a vote from `voting_source` for a slot with the given ancestors, and adds it to the
    /// tower if it is admitted. A vote that is turned down leaves the tower's votes as they were.
    pub fn try_add_vote(
        &mut self,
        proposed_vote: &ProposedVote,
        ancestors: &HashSet<Slot>,
        voting_source: VotingSource,
    ) -> (verdict: Result<(), VoteValidatorError>)
        requires
            old(self)@.stack.root_slot is Some,
            is_judgeable(old(self)@, proposed_vote.slot, ancestors@),
        ensures
            (verdict, final(self)@) == judge(
                old(self)@,
                *proposed_vote,
                ancestors@,
                voting_source,
            ),
            final(self)@.stack.root_slot is Some,
            old(self)@.is_sound() ==> final(self)@.is_sound(),
    {
        proof {
            if self@.is_sound() {
                crate::laws::law_judging_keeps_tower_sound(
                    self@,
                    *proposed_vote,
                    ancestors@,
                    voting_source,
                );
            }
        }
        let slot: Slot = proposed_vote.slot;
        if let Some(last_voted_slot) = self.tower.vote_state.last_voted_slot() {
            if last_voted_slot >= slot {
                return Err(
                    VoteValidatorError::VoteTooOld {
                        attempted_slot: slot,
                        last_voted_slot: self.tower.vote_state.last_voted_slot(),
                        root_slot: self.tower.root(),
                    },
                );
            }
        }
        if !self.is_bootstrapped() && !matches!(voting_source, VotingSource::Primary) {
            return Err(VoteValidatorError::Bootstrapping);
        }
        if self.tower.root() == 0 && !ancestors.contains(&0) {
            match highest_ancestor_below(ancestors, slot) {
                Some(new_root) => {
                    self.tower.initialize_root(new_root);
                },
                None => {
                    if slot != 0 {
                        return Err(
                            VoteValidatorError::RootMismatch { vote_slot: slot, tower_root: 0 },
                        );
                    }
                },
            }
        }
        let ghost aligned = self@;
        assert(align_initial_root(old(self)@, slot, ancestors@) == Ok::<
            TowerModel,
            VoteValidatorError,
        >(aligned));
        if self.tower.root() != 0 {
            let mut simulated = self.tower.vote_state.clone();
            simulated.process_next_vote_slot(slot);
            if let Some(next_root) = simulated.root_slot {
                if slot != next_root && !ancestors.contains(&next_root) {
                    if self.tower.root() != next_root {
                        return Err(
                            VoteValidatorError::RootMismatch {
                                vote_slot: slot,
                                tower_root: next_root,
                            },
                        );
                    }
                    match highest_ancestor_below(ancestors, slot) {
                        Some(new_root) => {
                            self.tower.initialize_root(new_root);
                            self.tower.vote_state.votes.clear();
                        },
                        None => {
                            return Err(
                                VoteValidatorError::RootMismatch {
                                    vote_slot: slot,
                                    tower_root: self.tower.root(),
                                },
                            );
                        },
                    }
                }
            }
        }
        assert(realign_stale_root(aligned, slot, ancestors@) == Ok::<
            TowerModel,
            VoteValidatorError,
        >(self@));
        if !self.tower.is_recent(slot) {
            if !self.is_bootstrapped() {
                return Err(
                    VoteValidatorError::BootstrapVoteInconsistent {
                        attempted_slot: slot,
                        last_voted_slot: self.tower.vote_state.last_voted_slot(),
                        root_slot: Some(self.tower.root()),
                    },
                );
            } else {
                return Err(
                    VoteValidatorError::VoteTooOld {
                        attempted_slot: slot,
                        last_voted_slot: self.tower.vote_state.last_voted_slot(),
                        root_slot: self.tower.root(),
                    },
                );
            }
        }
        if self.tower.is_locked_out(slot, ancestors) {
            return Err(VoteValidatorError::LockedOut(slot));
        }
        self.tower.vote_state.process_next_vote_slot(slot);
        self.tower.update_last_vote_from_vote_state(proposed_vote.hash, proposed_vote.block_id);
        Ok(())
    }

    /// The tower that decides.
    pub fn tower(&self) -> (tower: &Tower)
        ensures
            *tower == self.tower,
    {
        &self.tower
    }

    /// The tower that decides, for changing.
    pub fn tower_mut(&mut self) -> (tower: &mut Tower)
        ensures
            *tower == old(self).tower,
            final(self).tower == *final(tower),
    {
        &mut self.tower
    }

    /// Puts a fresh tower in place of the present one.
    pub fn reset(&mut self)
        ensures
            final(self)@ == TowerModel::fresh(),
            final(self)@.is_sound(),
    {
        self.tower = Tower::default();
    }
}

} // verus!
