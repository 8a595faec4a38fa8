//! The tower: the votes cast so far, the root they stand on, and the last vote made from them.
use crate::lockout::{Lockout, Slot};
use crate::vote_state::{TowerVoteState, VoteStack};
use std::collections::HashSet;
use vstd::prelude::*;

verus! {

broadcast use vstd::std_specs::hash::group_hash_axioms;

/// A hash that names a block or the state of a bank.
pub type Hash = [u8; 32];

/// What a [`LastVote`] holds.
#[verifier::ext_equal]
pub struct LastVoteModel {
    pub lockouts: Seq<Lockout>,
    pub root: Option<Slot>,
    pub hash: Seq<u8>,
    pub block_id: Seq<u8>,
}

/// The last vote that was made from a tower: its stack and root at that time, with the hash of
/// the bank and of the block that was voted for.
#[derive(Debug)]
pub struct LastVote {
    pub lockouts: Vec<Lockout>,
    pub root: Option<Slot>,
    pub hash: Hash,
    pub block_id: Hash,
}

impl View for LastVote {
    type V = LastVoteModel;

    open spec fn view(&self) -> LastVoteModel {
        LastVoteModel {
            lockouts: self.lockouts@,
            root: self.root,
            hash: self.hash@,
            block_id: self.block_id@,
        }
    }
}

/// The hash of which every byte is zero.
pub open spec fn zero_hash() -> Seq<u8> {
    Seq::new(32, |i: int| 0u8)
}

/// What a [`Tower`] holds.
#[verifier::ext_equal]
pub struct TowerModel {
    pub stack: VoteStack,
    pub last_vote: LastVoteModel,
}

/// Whether `vote` is for another slot than `slot` and not for one of its ancestors.
pub open spec fn is_off_fork(vote: Lockout, slot: Slot, ancestors: Set<Slot>) -> bool {
    vote.slot != slot && !ancestors.contains(vote.slot)
}

impl VoteStack {
    /// Whether `slot` is newer than the newest vote or, without votes, newer than the root.
    pub open spec fn is_recent(self, slot: Slot) -> bool {
        match (self.last_voted_slot(), self.root_slot) {
            (Some(last_voted_slot), _) => slot > last_voted_slot,
            (None, Some(root)) => slot > root,
            (None, None) => true,
        }
    }

    /// Whether a vote that still binds after a vote for `slot` stands on another fork.
    pub open spec fn conflicts_with(self, slot: Slot, ancestors: Set<Slot>) -> bool {
        exists|i: int|
            0 <= i < self.after_vote(slot).votes.len() && is_off_fork(
                #[trigger] self.after_vote(slot).votes[i],
                slot,
                ancestors,
            )
    }

    /// Whether a vote for `slot` is barred by the votes cast before.
    pub open spec fn locks_out(self, slot: Slot, ancestors: Set<Slot>) -> bool {
        !self.is_recent(slot) || self.conflicts_with(slot, ancestors)
    }

    /// Whether the root after a vote for `slot`, if there is one, is that slot or one of its
    /// ancestors.
    pub open spec fn root_is_on_fork(self, slot: Slot, ancestors: Set<Slot>) -> bool {
        match self.after_vote(slot).root_slot {
            Some(root) => root == slot || ancestors.contains(root),
            None => true,
        }
    }

    /// Whether [`Tower::is_locked_out`] has an answer: a slot that is not locked out descends
    /// from the root that a vote for it would leave.
    pub open spec fn lockout_is_decided(self, slot: Slot, ancestors: Set<Slot>) -> bool {
        self.locks_out(slot, ancestors) || self.root_is_on_fork(slot, ancestors)
    }
}

impl TowerModel {
    /// A tower with no votes that stands on slot 0.
    pub open spec fn fresh() -> TowerModel {
        TowerModel {
            stack: VoteStack { votes: Seq::empty(), root_slot: Some(0) },
            last_vote: LastVoteModel {
                lockouts: Seq::empty(),
                root: None,
                hash: zero_hash(),
                block_id: zero_hash(),
            },
        }
    }

    /// The slot the tower stands on.
    pub open spec fn root(self) -> Slot
        recommends
            self.stack.root_slot is Some,
    {
        self.stack.root_slot->0
    }

    /// What holds of a tower that only votes have built: it stands on a root, and its stack is in
    /// order.
    pub open spec fn is_sound(self) -> bool {
        self.stack.root_slot is Some && self.stack.is_ordered()
    }

    pub open spec fn with_root(self, root: Slot) -> TowerModel {
        TowerModel { stack: VoteStack { root_slot: Some(root), ..self.stack }, ..self }
    }

    pub open spec fn without_votes(self) -> TowerModel {
        TowerModel { stack: VoteStack { votes: Seq::empty(), ..self.stack }, ..self }
    }

    /// The tower after a vote for `slot`, with that vote as its last one.
    pub open spec fn after_vote(self, slot: Slot, hash: Seq<u8>, block_id: Seq<u8>) -> TowerModel {
        let stack = self.stack.after_vote(slot);
        TowerModel {
            stack,
            last_vote: LastVoteModel {
                lockouts: stack.votes,
                root: stack.root_slot,
                hash,
                block_id,
            },
        }
    }
}

/// A tower of votes.
#[derive(Debug)]
pub struct Tower {
    pub vote_state: TowerVoteState,
    pub last_vote: LastVote,
}

impl View for Tower {
    type V = TowerModel;

    open spec fn view(&self) -> TowerModel {
        TowerModel { stack: self.vote_state@, last_vote: self.last_vote@ }
    }
}

impl Default for Tower {
    /// A tower with no votes that stands on slot 0.
    fn default() -> (tower: Self)
        ensures
            tower@ == TowerModel::fresh(),
    {
        let mut vote_state = TowerVoteState::default();
        vote_state.root_slot = Some(0);
        let hash: Hash = [0u8; 32];
        assert(hash@ =~= zero_hash());
        Tower {
            vote_state,
            last_vote: LastVote { lockouts: Vec::new(), root: None, hash, block_id: hash },
        }
    }
}

impl Tower {
    /// The slot the tower stands on.
    pub fn root(&self) -> (root: Slot)
        requires
            self@.stack.root_slot is Some,
        ensures
            root == self@.root(),
    {
        self.vote_state.root_slot.unwrap()
    }

    /// Puts the tower on `root` and leaves its votes.
    pub fn initialize_root(&mut self, root: Slot)
        ensures
            final(self)@ == old(self)@.with_root(root),
    {
        self.vote_state.root_slot = Some(root);
    }

    /// Whether `slot` is newer than the newest vote or, without votes, newer than the root.
    pub fn is_recent(&self, slot: Slot) -> (recent: bool)
        ensures
            recent == self@.stack.is_recent(slot),
    {
        if let Some(last_voted_slot) = self.vote_state.last_voted_slot() {
            if slot <= last_voted_slot {
                return false;
            }
        } else if let Some(root) = self.vote_state.root_slot {
            if slot <= root {
                return false;
            }
        }
        true
    }

    /// Whether a vote for `slot`, whose ancestors are `ancestors`, is barred by the votes cast
    /// before: the slot is not recent, or a vote that still binds at it is on another fork.
    pub fn is_locked_out(&self, slot: Slot, ancestors: &HashSet<Slot>) -> (locked_out: bool)
        requires
            self@.stack.lockout_is_decided(slot, ancestors@),
        ensures
            locked_out == self@.stack.locks_out(slot, ancestors@),
    {
        if !self.is_recent(slot) {
            return true;
        }
        let mut vote_state = self.vote_state.clone();
        vote_state.process_next_vote_slot(slot);
        vote_state.has_vote_off_fork(slot, ancestors)
    }

    /// Whether [`Tower::is_locked_out`] has an answer for `slot`.
    pub fn lockout_is_decided(&self, slot: Slot, ancestors: &HashSet<Slot>) -> (decided: bool)
        ensures
            decided == self@.stack.lockout_is_decided(slot, ancestors@),
    {
        if !self.is_recent(slot) {
            return true;
        }
        let mut vote_state = self.vote_state.clone();
        vote_state.process_next_vote_slot(slot);
        if vote_state.has_vote_off_fork(slot, ancestors) {
            return true;
        }
        match vote_state.root_slot {
            Some(root) => root == slot || ancestors.contains(&root),
            None => true,
        }
    }

    /// Makes the tower's stack and root its last vote, for the block `block_id` with `vote_hash`.
    pub fn update_last_vote_from_vote_state(&mut self, vote_hash: Hash, block_id: Hash)
        ensures
            final(self)@.stack == old(self)@.stack,
            final(self)@.last_vote == (LastVoteModel {
                lockouts: old(self)@.stack.votes,
                root: old(self)@.stack.root_slot,
                hash: vote_hash@,
                block_id: block_id@,
            }),
    {
        let mut lockouts: Vec<Lockout> = Vec::new();
        let depth: usize = self.vote_state.votes.len();
        let mut i: usize = 0;
        while i < depth
            invariant
                i <= depth,
                depth == self.vote_state.votes@.len(),
                self@ == old(self)@,
                lockouts@ == self.vote_state.votes@.take(i as int),
            decreases depth - i,
        {
            let vote = self.vote_state.votes[i];
            lockouts.push(
                Lockout::new_with_confirmation_count(vote.slot(), vote.confirmation_count()),
            );
            i = i + 1;
            assert(lockouts@ =~= self.vote_state.votes@.take(i as int));
        }
        assert(lockouts@ =~= self.vote_state.votes@);
        self.last_vote = LastVote {
            lockouts,
            root: self.vote_state.root_slot,
            hash: vote_hash,
            block_id,
        };
    }
}

impl TowerVoteState {
    /// Whether some vote of the stack is neither for `slot` nor for one of its ancestors.
    pub fn has_vote_off_fork(&self, slot: Slot, ancestors: &HashSet<Slot>) -> (found: bool)
        ensures
            found == exists|i: int|
                0 <= i < self@.votes.len() && is_off_fork(
                    #[trigger] self@.votes[i],
                    slot,
                    ancestors@,
                ),
            found <==> exists|i: int|
                0 <= i < self.votes@.len() && (#[trigger] self.votes@[i]).slot != slot
                    && !ancestors@.contains(self.votes@[i].slot),
    {
        let depth: usize = self.votes.len();
        let mut i: usize = 0;
        while i < depth
            invariant
                i <= depth,
                depth == self.votes@.len(),
                forall|k: int|
                    0 <= k < i ==> !is_off_fork(#[trigger] self.votes@[k], slot, ancestors@),
            decreases depth - i,
        {
            let voted_slot: Slot = self.votes[i].slot();
            if slot != voted_slot && !ancestors.contains(&voted_slot) {
                assert(is_off_fork(self@.votes[i as int], slot, ancestors@));
                return true;
            }
            i = i + 1;
        }
        false
    }
}

} // verus!
