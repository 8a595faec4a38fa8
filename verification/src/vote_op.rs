//! Votes on their way to the cluster.
use crate::lockout::Slot;
use crate::transaction::Transaction;
use std::collections::HashSet;
use vstd::prelude::*;

verus! {

/// A vote to be sent. `S` is the tower as it is saved along with a new vote; it is passed on to
/// the storage and never looked into.
#[derive(Clone, Debug)]
pub enum VoteOp<S> {
    /// A new vote, with the slots of the tower it was made from.
    PushVote { tx: Transaction, tower_slots: Vec<Slot>, saved_tower: Option<S> },
    /// A vote that was sent before and is sent again.
    RefreshVote { tx: Transaction, last_voted_slot: Slot },
}

/// A vote to be sent, with the ancestors of the slot it is for.
#[derive(Debug)]
pub struct VoteOpWithAncestors<S> {
    pub vote_op: VoteOp<S>,
    pub ancestors: HashSet<Slot>,
}

impl<S> VoteOp<S> {
    /// The transaction that carries the vote.
    pub open spec fn transaction(self) -> Transaction {
        match self {
            VoteOp::PushVote { tx, .. } => tx,
            VoteOp::RefreshVote { tx, .. } => tx,
        }
    }

    /// The transaction that carries the vote.
    pub fn tx(&self) -> (tx: &Transaction)
        ensures
            *tx == self.transaction(),
    {
        match self {
            VoteOp::PushVote { tx, .. } => tx,
            VoteOp::RefreshVote { tx, .. } => tx,
        }
    }
}

} // verus!
