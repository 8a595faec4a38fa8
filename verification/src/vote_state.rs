//! The stack of votes that a tower keeps, and the rule by which a new vote enters it.
use crate::lockout::{Lockout, Slot, MAX_LOCKOUT_HISTORY};
use std::collections::VecDeque;
use vstd::prelude::*;

verus! {

/// What a [`TowerVoteState`] holds: the votes from the oldest to the newest, and the root.
#[verifier::ext_equal]
pub struct VoteStack {
    pub votes: Seq<Lockout>,
    pub root_slot: Option<Slot>,
}

/// The votes that are left at `slot`: from the newest on, votes that no longer bind are dropped
/// until one is met that still does.
pub open spec fn unexpired(votes: Seq<Lockout>, slot: Slot) -> Seq<Lockout>
    decreases votes.len(),
{
    if votes.len() == 0 || votes.last().binds_at(slot) {
        votes
    } else {
        unexpired(votes.drop_last(), slot)
    }
}

/// The vote that stands at `index` of a stack of `depth` votes, once confirmations are counted:
/// it gains one while the stack above it is deeper than the confirmations it has seen.
pub open spec fn confirmed(vote: Lockout, index: int, depth: nat) -> Lockout {
    if depth > index + vote.confirmation_count && vote.confirmation_count < u32::MAX {
        Lockout { confirmation_count: (vote.confirmation_count + 1) as u32, ..vote }
    } else {
        vote
    }
}

/// `votes` with the confirmations of each counted.
pub open spec fn all_confirmed(votes: Seq<Lockout>) -> Seq<Lockout> {
    Seq::new(votes.len(), |i: int| confirmed(votes[i], i, votes.len()))
}

impl VoteStack {
    /// The slot of the newest vote.
    pub open spec fn last_voted_slot(self) -> Option<Slot> {
        if self.votes.len() == 0 {
            None
        } else {
            Some(self.votes.last().slot)
        }
    }

    /// Whether the stack already holds a vote for `slot` or for a newer slot on top.
    pub open spec fn voted_at_or_after(self, slot: Slot) -> bool {
        self.votes.len() > 0 && slot <= self.votes.last().slot
    }

    /// The stack after a vote for `slot`. A vote that is not newer than the newest one changes
    /// nothing. Otherwise expired votes go, the oldest vote becomes the root if the stack is
    /// full, the new vote is put on top, and confirmations are counted.
    pub open spec fn after_vote(self, slot: Slot) -> VoteStack {
        let kept = unexpired(self.votes, slot);
        let vote = Lockout { slot, confirmation_count: 1 };
        if self.voted_at_or_after(slot) {
            self
        } else if kept.len() == MAX_LOCKOUT_HISTORY {
            VoteStack {
                votes: all_confirmed(kept.drop_first().push(vote)),
                root_slot: Some(kept[0].slot),
            }
        } else {
            VoteStack { votes: all_confirmed(kept.push(vote)), root_slot: self.root_slot }
        }
    }

    /// What holds of a stack that only votes have built: it is no deeper than
    /// `MAX_LOCKOUT_HISTORY`; slots rise and confirmations fall from the oldest vote to the
    /// newest; and every vote has at least one confirmation for itself and for each vote above
    /// it, and no more than the stack can be deep.
    pub open spec fn is_ordered(self) -> bool {
        &&& self.votes.len() <= MAX_LOCKOUT_HISTORY
        &&& forall|i: int, j: int|
            #![trigger self.votes[i], self.votes[j]]
            0 <= i < j < self.votes.len() ==> self.votes[i].slot < self.votes[j].slot
                && self.votes[i].confirmation_count > self.votes[j].confirmation_count
        &&& forall|i: int|
            0 <= i < self.votes.len() ==> self.votes.len() - i <= (
            #[trigger] self.votes[i]).confirmation_count <= MAX_LOCKOUT_HISTORY
    }
}

/// The votes of a tower and the slot below which nothing is in question any more.
#[derive(Debug)]
pub struct TowerVoteState {
    pub votes: VecDeque<Lockout>,
    pub root_slot: Option<Slot>,
}

impl View for TowerVoteState {
    type V = VoteStack;

    open spec fn view(&self) -> VoteStack {
        VoteStack { votes: self.votes@, root_slot: self.root_slot }
    }
}

impl Clone for TowerVoteState {
    fn clone(&self) -> (copy: Self)
        ensures
            copy@ == self@,
    {
        let votes = self.votes.clone();
        assert(votes@ =~= self.votes@);
        TowerVoteState { votes, root_slot: self.root_slot }
    }
}

impl Default for TowerVoteState {
    /// No votes and no root.
    fn default() -> (state: Self)
        ensures
            state@ == (VoteStack { votes: Seq::empty(), root_slot: None }),
    {
        TowerVoteState { votes: VecDeque::new(), root_slot: None }
    }
}

impl TowerVoteState {
    /// The newest vote.
    pub fn last_lockout(&self) -> (vote: Option<Lockout>)
        ensures
            vote == if self@.votes.len() == 0 {
                None
            } else {
                Some(self@.votes.last())
            },
    {
        let depth: usize = self.votes.len();
        if depth == 0 {
            None
        } else {
            Some(self.votes[depth - 1])
        }
    }

    /// The slot of the newest vote.
    pub fn last_voted_slot(&self) -> (slot: Option<Slot>)
        ensures
            slot == self@.last_voted_slot(),
    {
        match self.last_lockout() {
            Some(vote) => Some(vote.slot()),
            None => None,
        }
    }

    /// Puts a vote for `next_vote_slot` on the stack.
    pub fn process_next_vote_slot(&mut self, next_vote_slot: Slot)
        ensures
            final(self)@ == old(self)@.after_vote(next_vote_slot),
    {
        if let Some(last_voted_slot) = self.last_voted_slot() {
            if next_vote_slot <= last_voted_slot {
                return;
            }
        }
        self.pop_expired_votes(next_vote_slot);
        let ghost kept = self@;
        if self.votes.len() == MAX_LOCKOUT_HISTORY {
            if let Some(rooted_vote) = self.votes.pop_front() {
                self.root_slot = Some(rooted_vote.slot());
            }
            assert(self.votes@ =~= kept.votes.drop_first());
        }
        self.votes.push_back(Lockout::new(next_vote_slot));
        self.double_lockouts();
    }

    /// Drops, from the newest vote on, the votes that no longer bind at `next_vote_slot`.
    pub fn pop_expired_votes(&mut self, next_vote_slot: Slot)
        ensures
            final(self)@ == (VoteStack {
                votes: unexpired(old(self)@.votes, next_vote_slot),
                ..old(self)@
            }),
    {
        loop
            invariant
                self.root_slot == old(self).root_slot,
                unexpired(self.votes@, next_vote_slot) == unexpired(
                    old(self).votes@,
                    next_vote_slot,
                ),
            ensures
                self.votes@ == unexpired(old(self).votes@, next_vote_slot),
                self.root_slot == old(self).root_slot,
            decreases self.votes@.len(),
        {
            let ghost before = self.votes@;
            match self.last_lockout() {
                Some(vote) => {
                    if vote.is_locked_out_at_slot(next_vote_slot) {
                        break;
                    }
                    let _ = self.votes.pop_back();
                    assert(self.votes@ =~= before.drop_last());
                },
                None => {
                    break;
                },
            }
        }
    }

    /// Counts the confirmations of every vote on the stack.
    pub fn double_lockouts(&mut self)
        ensures
            final(self)@ == (VoteStack { votes: all_confirmed(old(self)@.votes), ..old(self)@ }),
    {
        let stack_depth: usize = self.votes.len();
        let mut counted: VecDeque<Lockout> = VecDeque::new();
        let mut i: usize = 0;
        while i < stack_depth
            invariant
                i <= stack_depth,
                stack_depth == self.votes@.len(),
                self@ == old(self)@,
                counted@.len() == i,
                forall|k: int|
                    0 <= k < i ==> #[trigger] counted@[k] == confirmed(
                        self.votes@[k],
                        k,
                        stack_depth as nat,
                    ),
            decreases stack_depth - i,
        {
            let mut vote = self.votes[i];
            if stack_depth - i > vote.confirmation_count() as usize {
                vote.increase_confirmation_count(1);
            }
            counted.push_back(vote);
            i = i + 1;
        }
        assert(counted@ =~= all_confirmed(self.votes@));
        self.votes = counted;
    }
}

} // verus!
