//! What holds of the tower and of vote admission as a whole.
use crate::delivery::{DeliveryAction, DeliveryEvent, DeliveryModel, Publication};
use crate::instruction::VoteOpError;
use crate::lockout::{Lockout, Slot, MAX_LOCKOUT_HISTORY};
use crate::tower::TowerModel;
use crate::transaction::{Pubkey, TransactionModel};
use crate::validator::{
    ProposedVote, VoteValidatorError, VotingSource, VOTE_THRESHOLD_DEPTH,
};
use crate::vote_op::VoteOp;
use crate::vote_state::VoteStack;
use crate::voting_service::{VoteFault, VoteOutcome};
use vstd::prelude::*;

verus! {

/// Dropping expired votes leaves the oldest ones in place, and each vote that goes has expired.
pub proof fn law_only_expired_votes_are_dropped(votes: Seq<Lockout>, slot: Slot)
    ensures
        crate::vote_state::unexpired(votes, slot).len() <= votes.len(),
        crate::vote_state::unexpired(votes, slot) == votes.take(
            crate::vote_state::unexpired(votes, slot).len() as int,
        ),
        forall|i: int|
            crate::vote_state::unexpired(votes, slot).len() <= i < votes.len() ==> !(
            #[trigger] votes[i]).binds_at(slot),
    decreases votes.len(),
{
    let kept = crate::vote_state::unexpired(votes, slot);
    if votes.len() == 0 || votes.last().binds_at(slot) {
        assert(kept =~= votes.take(kept.len() as int));
    } else {
        law_only_expired_votes_are_dropped(votes.drop_last(), slot);
        assert(kept =~= votes.take(kept.len() as int));
        assert forall|i: int| kept.len() <= i < votes.len() implies !(
        #[trigger] votes[i]).binds_at(slot) by {
            if i < votes.len() - 1 {
                assert(votes.drop_last()[i] == votes[i]);
            }
        }
    }
}

/// A vote for a slot newer than the newest vote becomes the newest vote, with one confirmation.
pub proof fn law_new_vote_is_on_top(stack: VoteStack, slot: Slot)
    requires
        !stack.voted_at_or_after(slot),
    ensures
        stack.after_vote(slot).votes.len() > 0,
        stack.after_vote(slot).votes.last() == (Lockout { slot, confirmation_count: 1 }),
        stack.after_vote(slot).last_voted_slot() == Some(slot),
{
}

/// Votes keep the stack in order: it stays at most `MAX_LOCKOUT_HISTORY` deep, with slots rising
/// and confirmations falling from the oldest vote to the newest.
pub proof fn law_vote_keeps_stack_ordered(stack: VoteStack, slot: Slot)
    requires
        stack.is_ordered(),
    ensures
        stack.after_vote(slot).is_ordered(),
{
    if !stack.voted_at_or_after(slot) {
        law_only_expired_votes_are_dropped(stack.votes, slot);
        let kept = crate::vote_state::unexpired(stack.votes, slot);
        let vote = Lockout { slot, confirmation_count: 1 };
        let after = stack.after_vote(slot);
        let base = if kept.len() == MAX_LOCKOUT_HISTORY {
            kept.drop_first()
        } else {
            kept
        };
        let shift: int = kept.len() - base.len();
        assert(forall|i: int|
            0 <= i < base.len() ==> #[trigger] base[i] == stack.votes[i + shift]);
        let pushed = base.push(vote);
        assert(after.votes == crate::vote_state::all_confirmed(pushed));
        if stack.votes.len() > 0 {
            assert(slot > stack.votes.last().slot);
        }
        assert forall|i: int| 0 <= i < base.len() implies (#[trigger] base[i]).slot < slot
            && base.len() - i <= base[i].confirmation_count <= MAX_LOCKOUT_HISTORY by {
            assert(base[i] == stack.votes[i + shift]);
            if i + shift < stack.votes.len() - 1 {
                assert(stack.votes[i + shift].slot < stack.votes[stack.votes.len() - 1].slot);
            }
        }
        assert forall|i: int, j: int|
            #![trigger after.votes[i], after.votes[j]]
            0 <= i < j < after.votes.len() implies after.votes[i].slot < after.votes[j].slot
            && after.votes[i].confirmation_count > after.votes[j].confirmation_count by {
            assert(pushed[i] == base[i]);
            if j < base.len() {
                assert(pushed[j] == base[j]);
                assert(stack.votes[i + shift].slot < stack.votes[j + shift].slot);
            }
        }
        assert forall|i: int| 0 <= i < after.votes.len() implies after.votes.len() - i <= (
        #[trigger] after.votes[i]).confirmation_count <= MAX_LOCKOUT_HISTORY by {
            if i < base.len() {
                assert(pushed[i] == base[i]);
            }
        }
    }
}

/// There is a root to fall back on exactly if some ancestor is below the slot, and it is then the
/// highest such ancestor.
pub proof fn law_root_candidate_is_highest_ancestor(ancestors: Set<Slot>, slot: Slot)
    ensures
        crate::validator::root_candidate(ancestors, slot) is Some <==> exists|a: Slot| #[trigger]
            ancestors.contains(a) && a < slot,
        crate::validator::root_candidate(ancestors, slot) matches Some(root)
            ==> crate::validator::is_highest_below(ancestors, slot, root),
{
    if exists|a: Slot| #[trigger] ancestors.contains(a) && a < slot {
        lemma_highest_exists(ancestors, slot, slot);
    }
}

/// Below any bound that leaves an ancestor, there is a highest one.
proof fn lemma_highest_exists(ancestors: Set<Slot>, slot: Slot, bound: Slot)
    requires
        bound <= slot,
        exists|a: Slot| #[trigger] ancestors.contains(a) && a < bound,
        forall|a: Slot| #[trigger] ancestors.contains(a) && a < slot ==> a < bound,
    ensures
        exists|c: Slot| crate::validator::is_highest_below(ancestors, slot, c),
    decreases bound,
{
    let top: Slot = (bound - 1) as Slot;
    if ancestors.contains(top) {
        assert(crate::validator::is_highest_below(ancestors, slot, top));
    } else {
        lemma_highest_exists(ancestors, slot, top);
    }
}

/// The vote on an empty stack leaves that vote alone.
proof fn lemma_vote_on_empty_stack(stack: VoteStack, slot: Slot)
    requires
        stack.votes.len() == 0,
    ensures
        stack.after_vote(slot).votes == seq![Lockout { slot, confirmation_count: 1 }],
        stack.after_vote(slot).root_slot == stack.root_slot,
{
    assert(stack.after_vote(slot).votes =~= seq![Lockout { slot, confirmation_count: 1 }]);
}

/// An admitted vote becomes the newest vote of the tower and its last vote; every vote admitted
/// before is for an older slot.
pub proof fn law_admitted_vote_is_newest(
    tower: TowerModel,
    vote: ProposedVote,
    ancestors: Set<Slot>,
    source: VotingSource,
)
    requires
        crate::validator::judge(tower, vote, ancestors, source).0 is Ok,
    ensures
        ({
            let after = crate::validator::judge(tower, vote, ancestors, source).1;
            &&& after.stack.last_voted_slot() == Some(vote.slot)
            &&& tower.stack.last_voted_slot() matches Some(last) ==> last < vote.slot
            &&& after.last_vote.lockouts == after.stack.votes
            &&& after.last_vote.root == after.stack.root_slot
            &&& after.last_vote.hash == vote.hash@
            &&& after.last_vote.block_id == vote.block_id@
        }),
{
    let aligned = crate::validator::align_initial_root(tower, vote.slot, ancestors)->Ok_0;
    let settled = crate::validator::realign_stale_root(aligned, vote.slot, ancestors)->Ok_0;
    law_new_vote_is_on_top(settled.stack, vote.slot);
}

/// The first vote for a slot that is admitted is the only one: any later vote for that slot or
/// for an older one is turned down as too old, whatever its ancestors and its source, and leaves
/// the tower alone.
pub proof fn law_first_admitted_vote_wins(
    tower: TowerModel,
    vote: ProposedVote,
    ancestors: Set<Slot>,
    source: VotingSource,
    later: ProposedVote,
    later_ancestors: Set<Slot>,
    later_source: VotingSource,
)
    requires
        crate::validator::judge(tower, vote, ancestors, source).0 is Ok,
        later.slot <= vote.slot,
    ensures
        ({
            let after = crate::validator::judge(tower, vote, ancestors, source).1;
            let error = VoteValidatorError::VoteTooOld {
                attempted_slot: later.slot,
                last_voted_slot: Some(vote.slot),
                root_slot: after.root(),
            };
            crate::validator::judge(after, later, later_ancestors, later_source) == (
                Err::<(), VoteValidatorError>(error),
                after,
            )
        }),
{
    law_admitted_vote_is_newest(tower, vote, ancestors, source);
}

/// A vote that is turned down leaves the votes and the last vote of the tower as they were. Its
/// root moves at most once: off slot 0, if the slot does not descend from it, to the highest
/// ancestor below the slot.
pub proof fn law_rejected_vote_keeps_votes(
    tower: TowerModel,
    vote: ProposedVote,
    ancestors: Set<Slot>,
    source: VotingSource,
)
    requires
        tower.stack.root_slot is Some,
        crate::validator::judge(tower, vote, ancestors, source).0 is Err,
    ensures
        ({
            let after = crate::validator::judge(tower, vote, ancestors, source).1;
            &&& after.stack.votes == tower.stack.votes
            &&& after.last_vote == tower.last_vote
            &&& after.stack.root_slot != tower.stack.root_slot ==> {
                &&& tower.root() == 0
                &&& !ancestors.contains(0)
                &&& after.stack.root_slot == crate::validator::root_candidate(
                    ancestors,
                    vote.slot,
                )
            }
        }),
{
    let slot = vote.slot;
    law_root_candidate_is_highest_ancestor(ancestors, slot);
    if let Ok(aligned) = crate::validator::align_initial_root(tower, slot, ancestors) {
        if let Ok(settled) = crate::validator::realign_stale_root(aligned, slot, ancestors) {
            if settled.stack.votes.len() == 0 {
                lemma_vote_on_empty_stack(settled.stack, slot);
            }
        }
    }
}

/// While the tower holds fewer than `VOTE_THRESHOLD_DEPTH` votes the hot spare is not heard: its
/// votes are turned down and leave the tower alone.
pub proof fn law_hot_spare_waits_for_bootstrap(
    tower: TowerModel,
    vote: ProposedVote,
    ancestors: Set<Slot>,
)
    requires
        tower.stack.votes.len() < VOTE_THRESHOLD_DEPTH,
    ensures
        ({
            let (verdict, after) = crate::validator::judge(
                tower,
                vote,
                ancestors,
                VotingSource::Secondary,
            );
            &&& verdict matches Err(error) && (error is VoteTooOld || error is Bootstrapping)
            &&& after == tower
        }),
{
}

/// Once the tower holds `VOTE_THRESHOLD_DEPTH` votes, it is bootstrapped, and a vote of the hot
/// spare is judged as the validator's own.
pub proof fn law_source_is_irrelevant_once_bootstrapped(
    tower: TowerModel,
    vote: ProposedVote,
    ancestors: Set<Slot>,
)
    requires
        tower.stack.votes.len() >= VOTE_THRESHOLD_DEPTH,
    ensures
        crate::validator::bootstrapped(tower),
        crate::validator::judge(tower, vote, ancestors, VotingSource::Primary)
            == crate::validator::judge(tower, vote, ancestors, VotingSource::Secondary),
{
}

/// After an admitted vote the whole tower stands on one fork: each of its votes, and its root, is
/// the slot voted for or one of its ancestors.
pub proof fn law_admitted_tower_is_on_one_fork(
    tower: TowerModel,
    vote: ProposedVote,
    ancestors: Set<Slot>,
    source: VotingSource,
)
    requires
        tower.stack.root_slot is Some,
        crate::validator::is_judgeable(tower, vote.slot, ancestors),
        crate::validator::judge(tower, vote, ancestors, source).0 is Ok,
    ensures
        ({
            let after = crate::validator::judge(tower, vote, ancestors, source).1;
            &&& forall|i: int|
                0 <= i < after.stack.votes.len() ==> (#[trigger] after.stack.votes[i]).slot
                    == vote.slot || ancestors.contains(after.stack.votes[i].slot)
            &&& after.stack.root_slot is Some
            &&& after.root() == vote.slot || ancestors.contains(after.root())
        }),
{
    let slot = vote.slot;
    law_root_candidate_is_highest_ancestor(ancestors, slot);
    let aligned = crate::validator::align_initial_root(tower, slot, ancestors)->Ok_0;
    let settled = crate::validator::realign_stale_root(aligned, slot, ancestors)->Ok_0;
    if settled.stack.votes.len() == 0 {
        lemma_vote_on_empty_stack(settled.stack, slot);
    }
    let after = settled.stack.after_vote(slot);
    assert forall|i: int| 0 <= i < after.votes.len() implies (#[trigger] after.votes[i]).slot
        == slot || ancestors.contains(after.votes[i].slot) by {
        assert(!crate::tower::is_off_fork(after.votes[i], slot, ancestors));
    }
}

/// An admitted vote breaks no lockout: each vote of the tower that still binds at the slot voted
/// for is for one of its ancestors. A tower that starts over is not covered, for it drops votes
/// that still bind: it stands on a root other than 0, and the root that the vote would leave is
/// neither the slot nor one of its ancestors.
pub proof fn law_admitted_vote_respects_lockouts(
    tower: TowerModel,
    vote: ProposedVote,
    ancestors: Set<Slot>,
    source: VotingSource,
    index: int,
)
    requires
        tower.stack.root_slot is Some,
        crate::validator::is_judgeable(tower, vote.slot, ancestors),
        crate::validator::judge(tower, vote, ancestors, source).0 is Ok,
        tower.root() != 0 ==> (tower.stack.after_vote(vote.slot).root_slot matches Some(next) && (
        next == vote.slot || ancestors.contains(next))),
        tower.stack.is_ordered(),
        0 <= index < tower.stack.votes.len(),
        tower.stack.votes[index].binds_at(vote.slot),
    ensures
        ancestors.contains(tower.stack.votes[index].slot),
{
    let slot = vote.slot;
    let aligned = crate::validator::align_initial_root(tower, slot, ancestors)->Ok_0;
    let after = aligned.stack.after_vote(slot);
    let kept = crate::vote_state::unexpired(tower.stack.votes, slot);
    law_only_expired_votes_are_dropped(tower.stack.votes, slot);
    law_admitted_tower_is_on_one_fork(tower, vote, ancestors, source);
    assert(index < kept.len());
    assert(kept[index] == tower.stack.votes[index]);
    if index < tower.stack.votes.len() - 1 {
        assert(tower.stack.votes[index].slot < tower.stack.votes[tower.stack.votes.len()
            - 1].slot);
    }
    assert(tower.stack.votes[index].slot < slot);
    if kept.len() == MAX_LOCKOUT_HISTORY {
        if index > 0 {
            assert(kept.drop_first()[index - 1] == kept[index]);
            assert(after.votes[index - 1].slot == kept[index].slot);
        }
    } else {
        assert(after.votes[index].slot == kept[index].slot);
    }
}

/// A vote that extends the tower's own fork is admitted: the slot is newer than every vote and
/// descends from each of them and from the root, and the vote is the validator's own or the
/// tower is bootstrapped.
pub proof fn law_descendant_is_admitted(
    tower: TowerModel,
    vote: ProposedVote,
    ancestors: Set<Slot>,
    source: VotingSource,
)
    requires
        tower.stack.root_slot is Some,
        source == VotingSource::Primary || tower.stack.votes.len() >= VOTE_THRESHOLD_DEPTH,
        tower.stack.is_recent(vote.slot),
        ancestors.contains(tower.root()),
        forall|i: int|
            0 <= i < tower.stack.votes.len() ==> ancestors.contains(
                (#[trigger] tower.stack.votes[i]).slot,
            ),
    ensures
        crate::validator::is_judgeable(tower, vote.slot, ancestors),
        crate::validator::judge(tower, vote, ancestors, source) == (
            Ok::<(), VoteValidatorError>(()),
            tower.after_vote(vote.slot, vote.hash@, vote.block_id@),
        ),
{
    let slot = vote.slot;
    let kept = crate::vote_state::unexpired(tower.stack.votes, slot);
    let after = tower.stack.after_vote(slot);
    law_only_expired_votes_are_dropped(tower.stack.votes, slot);
    assert forall|i: int| 0 <= i < kept.len() implies ancestors.contains(
        (#[trigger] kept[i]).slot,
    ) by {
        assert(kept[i] == tower.stack.votes[i]);
    }
    assert forall|i: int| 0 <= i < after.votes.len() implies !crate::tower::is_off_fork(
        #[trigger] after.votes[i],
        slot,
        ancestors,
    ) by {
        if kept.len() == MAX_LOCKOUT_HISTORY {
            if i < kept.len() - 1 {
                assert(after.votes[i].slot == kept[i + 1].slot);
            }
        } else if i < kept.len() {
            assert(after.votes[i].slot == kept[i].slot);
        }
    }
}

/// A tower whose root is stale starts over: a vote for a slot that does not descend from the
/// root, and would not move it, is admitted if it has an ancestor below it. The tower is left
/// with this vote alone, on the highest such ancestor.
pub proof fn law_stale_root_starts_over(
    tower: TowerModel,
    vote: ProposedVote,
    ancestors: Set<Slot>,
    source: VotingSource,
)
    requires
        tower.stack.root_slot is Some,
        tower.root() != 0,
        source == VotingSource::Primary || tower.stack.votes.len() >= VOTE_THRESHOLD_DEPTH,
        !tower.stack.voted_at_or_after(vote.slot),
        tower.stack.after_vote(vote.slot).root_slot == tower.stack.root_slot,
        tower.root() != vote.slot,
        !ancestors.contains(tower.root()),
        crate::validator::root_candidate(ancestors, vote.slot) is Some,
    ensures
        ({
            let (verdict, after) = crate::validator::judge(tower, vote, ancestors, source);
            &&& verdict is Ok
            &&& after.stack.votes == seq![Lockout { slot: vote.slot, confirmation_count: 1 }]
            &&& after.stack.root_slot == crate::validator::root_candidate(ancestors, vote.slot)
        }),
{
    law_root_candidate_is_highest_ancestor(ancestors, vote.slot);
    let settled = crate::validator::realign_stale_root(tower, vote.slot, ancestors)->Ok_0;
    lemma_vote_on_empty_stack(settled.stack, vote.slot);
}

/// Judging a vote keeps the tower sound: it always stands on a root, and its stack stays in order.
pub proof fn law_judging_keeps_tower_sound(
    tower: TowerModel,
    vote: ProposedVote,
    ancestors: Set<Slot>,
    source: VotingSource,
)
    requires
        tower.is_sound(),
    ensures
        crate::validator::judge(tower, vote, ancestors, source).1.is_sound(),
{
    let slot = vote.slot;
    if let Ok(aligned) = crate::validator::align_initial_root(tower, slot, ancestors) {
        assert(aligned.stack.votes == tower.stack.votes);
        if let Ok(settled) = crate::validator::realign_stale_root(aligned, slot, ancestors) {
            law_vote_keeps_stack_ordered(settled.stack, slot);
        }
    }
}

/// The root of a tower moves only onto the highest ancestor below the slot of a vote, or onto the
/// oldest vote of a full stack.
pub proof fn law_root_moves_to_ancestor_or_oldest_vote(
    tower: TowerModel,
    vote: ProposedVote,
    ancestors: Set<Slot>,
    source: VotingSource,
)
    requires
        tower.stack.root_slot is Some,
    ensures
        ({
            let after = crate::validator::judge(tower, vote, ancestors, source).1;
            ||| after.stack.root_slot == tower.stack.root_slot
            ||| after.stack.root_slot == crate::validator::root_candidate(ancestors, vote.slot)
            ||| tower.stack.votes.len() >= MAX_LOCKOUT_HISTORY && after.stack.root_slot == Some(
                tower.stack.votes[0].slot,
            )
        }),
{
    let slot = vote.slot;
    if let Ok(aligned) = crate::validator::align_initial_root(tower, slot, ancestors) {
        if let Ok(settled) = crate::validator::realign_stale_root(aligned, slot, ancestors) {
            law_only_expired_votes_are_dropped(settled.stack.votes, slot);
        }
    }
}

/// The first vote of the validator puts a fresh tower on the fork it finds itself on: if the slot
/// does not descend from slot 0 but has an ancestor below it, the vote is admitted and the tower
/// stands on the highest such ancestor.
pub proof fn law_first_vote_aligns_fresh_tower(vote: ProposedVote, ancestors: Set<Slot>)
    requires
        !ancestors.contains(0),
        crate::validator::root_candidate(ancestors, vote.slot) is Some,
    ensures
        ({
            let (verdict, after) = crate::validator::judge(
                TowerModel::fresh(),
                vote,
                ancestors,
                VotingSource::Primary,
            );
            &&& verdict is Ok
            &&& after.stack.votes == seq![Lockout { slot: vote.slot, confirmation_count: 1 }]
            &&& after.stack.root_slot == crate::validator::root_candidate(ancestors, vote.slot)
        }),
{
    law_root_candidate_is_highest_ancestor(ancestors, vote.slot);
    let aligned = crate::validator::align_initial_root(
        TowerModel::fresh(),
        vote.slot,
        ancestors,
    )->Ok_0;
    lemma_vote_on_empty_stack(aligned.stack, vote.slot);
}

/// In an ordered stack lockouts double with depth: a vote with `n` votes above it binds for at
/// least two to the power of `n + 1` slots.
pub proof fn law_lockouts_double_with_depth(stack: VoteStack, index: int)
    requires
        stack.is_ordered(),
        0 <= index < stack.votes.len(),
    ensures
        crate::lockout::lockout_span(stack.votes[index].confirmation_count)
            >= vstd::arithmetic::power2::pow2((stack.votes.len() - index) as nat),
{
    let depth = (stack.votes.len() - index) as nat;
    let count = stack.votes[index].confirmation_count as nat;
    if depth < count {
        vstd::arithmetic::power2::lemma_pow2_strictly_increases(depth, count);
    }
}

/// Ancestor sets that agree below a slot have the same highest ancestor below it.
proof fn lemma_candidate_is_decided_below(
    ancestors: Set<Slot>,
    other_ancestors: Set<Slot>,
    slot: Slot,
)
    requires
        forall|a: Slot|
            a < slot ==> (#[trigger] ancestors.contains(a) <==> other_ancestors.contains(a)),
    ensures
        crate::validator::root_candidate(ancestors, slot) == crate::validator::root_candidate(
            other_ancestors,
            slot,
        ),
{
    law_root_candidate_is_highest_ancestor(ancestors, slot);
    law_root_candidate_is_highest_ancestor(other_ancestors, slot);
    if let Some(root) = crate::validator::root_candidate(ancestors, slot) {
        assert(other_ancestors.contains(root));
    }
    if let Some(root) = crate::validator::root_candidate(other_ancestors, slot) {
        assert(ancestors.contains(root));
    }
}

/// In an ordered stack, whether a vote conflicts is decided by the ancestors below its slot.
proof fn lemma_conflict_is_decided_below(
    stack: VoteStack,
    ancestors: Set<Slot>,
    other_ancestors: Set<Slot>,
    slot: Slot,
)
    requires
        stack.is_ordered(),
        !stack.voted_at_or_after(slot),
        forall|a: Slot|
            a < slot ==> (#[trigger] ancestors.contains(a) <==> other_ancestors.contains(a)),
        stack.conflicts_with(slot, ancestors),
    ensures
        stack.conflicts_with(slot, other_ancestors),
{
    let after = stack.after_vote(slot);
    law_vote_keeps_stack_ordered(stack, slot);
    law_new_vote_is_on_top(stack, slot);
    let i = choose|i: int|
        0 <= i < after.votes.len() && crate::tower::is_off_fork(
            #[trigger] after.votes[i],
            slot,
            ancestors,
        );
    assert(after.votes[i].slot < after.votes[after.votes.len() - 1].slot);
    assert(!ancestors.contains(after.votes[i].slot));
    assert(crate::tower::is_off_fork(after.votes[i], slot, other_ancestors));
}

/// Only the ancestors below the slot of a vote decide on it: two votes for one slot from one
/// source whose ancestors agree below it get the same verdict and leave the same votes and root.
/// The hash, the block id and ancestors at or above the slot never decide.
pub proof fn law_only_ancestors_below_the_slot_decide(
    tower: TowerModel,
    vote: ProposedVote,
    other: ProposedVote,
    ancestors: Set<Slot>,
    other_ancestors: Set<Slot>,
    source: VotingSource,
)
    requires
        tower.is_sound(),
        tower.root() < vote.slot,
        vote.slot == other.slot,
        forall|a: Slot|
            a < vote.slot ==> (#[trigger] ancestors.contains(a) <==> other_ancestors.contains(a)),
    ensures
        crate::validator::judge(tower, vote, ancestors, source).0 == crate::validator::judge(
            tower,
            other,
            other_ancestors,
            source,
        ).0,
        crate::validator::judge(tower, vote, ancestors, source).1.stack == crate::validator::judge(
            tower,
            other,
            other_ancestors,
            source,
        ).1.stack,
{
    let slot = vote.slot;
    if !tower.stack.voted_at_or_after(slot) {
        lemma_candidate_is_decided_below(ancestors, other_ancestors, slot);
        law_root_candidate_is_highest_ancestor(ancestors, slot);
        assert(ancestors.contains(0) <==> other_ancestors.contains(0));
        let aligned_result = crate::validator::align_initial_root(tower, slot, ancestors);
        assert(aligned_result == crate::validator::align_initial_root(
            tower,
            slot,
            other_ancestors,
        ));
        if let Ok(aligned) = aligned_result {
            let next_root = aligned.stack.after_vote(slot).root_slot->0;
            law_only_expired_votes_are_dropped(aligned.stack.votes, slot);
            let kept = crate::vote_state::unexpired(aligned.stack.votes, slot);
            if kept.len() > 0 {
                assert(kept[0] == tower.stack.votes[0]);
                assert(tower.stack.votes[0].slot <= tower.stack.votes.last().slot);
            }
            assert(next_root < slot);
            assert(ancestors.contains(next_root) <==> other_ancestors.contains(next_root));
            let settled_result = crate::validator::realign_stale_root(aligned, slot, ancestors);
            assert(settled_result == crate::validator::realign_stale_root(
                aligned,
                slot,
                other_ancestors,
            ));
            if let Ok(settled) = settled_result {
                if settled.stack.conflicts_with(slot, ancestors) {
                    lemma_conflict_is_decided_below(
                        settled.stack,
                        ancestors,
                        other_ancestors,
                        slot,
                    );
                }
                if settled.stack.conflicts_with(slot, other_ancestors) {
                    lemma_conflict_is_decided_below(
                        settled.stack,
                        other_ancestors,
                        ancestors,
                        slot,
                    );
                }
            }
        }
    }
}

/// A vote with all that decides on it.
pub struct Submission {
    pub vote: ProposedVote,
    pub ancestors: Set<Slot>,
    pub source: VotingSource,
}

/// The tower after `submissions` were judged in turn.
pub open spec fn after_judging(tower: TowerModel, submissions: Seq<Submission>) -> TowerModel
    decreases submissions.len(),
{
    if submissions.len() == 0 {
        tower
    } else {
        let first = submissions.first();
        let after = crate::validator::judge(tower, first.vote, first.ancestors, first.source).1;
        after_judging(after, submissions.drop_first())
    }
}

/// A slot that is not newer than the newest vote never becomes newer again.
proof fn lemma_judging_keeps_slot_closed(tower: TowerModel, submissions: Seq<Submission>, slot: Slot)
    requires
        tower.stack.root_slot is Some,
        tower.stack.voted_at_or_after(slot),
    ensures
        after_judging(tower, submissions).stack.voted_at_or_after(slot),
    decreases submissions.len(),
{
    if submissions.len() > 0 {
        let first = submissions.first();
        let (verdict, after) = crate::validator::judge(
            tower,
            first.vote,
            first.ancestors,
            first.source,
        );
        lemma_judging_keeps_root(tower, first.vote, first.ancestors, first.source);
        if verdict is Ok {
            law_admitted_vote_is_newest(tower, first.vote, first.ancestors, first.source);
        } else {
            law_rejected_vote_keeps_votes(tower, first.vote, first.ancestors, first.source);
        }
        lemma_judging_keeps_slot_closed(after, submissions.drop_first(), slot);
    }
}

/// A tower that stands on a root still does after a vote was judged.
proof fn lemma_judging_keeps_root(
    tower: TowerModel,
    vote: ProposedVote,
    ancestors: Set<Slot>,
    source: VotingSource,
)
    requires
        tower.stack.root_slot is Some,
    ensures
        crate::validator::judge(tower, vote, ancestors, source).1.stack.root_slot is Some,
{
}

/// The slot of an admitted vote stays closed: after any number of further votes, a vote for that
/// slot or for an older one is turned down as too old and leaves the tower alone.
pub proof fn law_admitted_slot_stays_closed(
    tower: TowerModel,
    vote: ProposedVote,
    ancestors: Set<Slot>,
    source: VotingSource,
    submissions: Seq<Submission>,
    later: Submission,
)
    requires
        tower.stack.root_slot is Some,
        crate::validator::judge(tower, vote, ancestors, source).0 is Ok,
        later.vote.slot <= vote.slot,
    ensures
        ({
            let after = after_judging(
                crate::validator::judge(tower, vote, ancestors, source).1,
                submissions,
            );
            let error = VoteValidatorError::VoteTooOld {
                attempted_slot: later.vote.slot,
                last_voted_slot: after.stack.last_voted_slot(),
                root_slot: after.root(),
            };
            crate::validator::judge(after, later.vote, later.ancestors, later.source) == (
                Err::<(), VoteValidatorError>(error),
                after,
            )
        }),
{
    law_admitted_vote_is_newest(tower, vote, ancestors, source);
    lemma_judging_keeps_root(tower, vote, ancestors, source);
    lemma_judging_keeps_slot_closed(
        crate::validator::judge(tower, vote, ancestors, source).1,
        submissions,
        vote.slot,
    );
}

/// A vote as it reaches the service, with the ancestors of the slot it is said to be for: one of
/// the validator's own with what its transaction says, or one of the hot spare with that and
/// whether it is signed.
pub enum Arrival {
    Own { reading: Result<Result<ProposedVote, VoteOpError>, VoteFault>, ancestors: Set<Slot> },
    HotSpare {
        signed: Result<bool, VoteFault>,
        reading: Result<Result<ProposedVote, VoteOpError>, VoteFault>,
        ancestors: Set<Slot>,
    },
}

/// What becomes of a vote that reaches the service, and the tower it leaves.
pub open spec fn arrival_outcome(tower: TowerModel, arrival: Arrival) -> (
    Result<VoteOutcome, VoteFault>,
    TowerModel,
) {
    match arrival {
        Arrival::Own { reading, ancestors } => crate::voting_service::handling(
            tower,
            reading,
            ancestors,
            VotingSource::Primary,
        ),
        Arrival::HotSpare { signed, reading, ancestors } => crate::voting_service::udp_handling(
            tower,
            signed,
            reading,
            ancestors,
        ),
    }
}

/// The tower after `arrivals` were handled in turn.
pub open spec fn after_arrivals(tower: TowerModel, arrivals: Seq<Arrival>) -> TowerModel
    decreases arrivals.len(),
{
    if arrivals.len() == 0 {
        tower
    } else {
        after_arrivals(arrival_outcome(tower, arrivals.first()).1, arrivals.drop_first())
    }
}

/// The slots of the votes that are accepted, and so sent, when `arrivals` are handled in turn.
pub open spec fn sent_slots(tower: TowerModel, arrivals: Seq<Arrival>) -> Seq<Slot>
    decreases arrivals.len(),
{
    if arrivals.len() == 0 {
        Seq::empty()
    } else {
        let (outcome, after) = arrival_outcome(tower, arrivals.first());
        let rest = sent_slots(after, arrivals.drop_first());
        match outcome {
            Ok(VoteOutcome::Accepted { slot }) => seq![slot] + rest,
            _ => rest,
        }
    }
}

/// What an arrival does to the tower: an accepted vote is newer than all before and becomes the
/// newest; any other leaves the votes as they were.
proof fn lemma_arrival(tower: TowerModel, arrival: Arrival)
    requires
        tower.stack.root_slot is Some,
    ensures
        ({
            let (outcome, after) = arrival_outcome(tower, arrival);
            &&& after.stack.root_slot is Some
            &&& match outcome {
                Ok(VoteOutcome::Accepted { slot }) => !tower.stack.voted_at_or_after(slot)
                    && after.stack.last_voted_slot() == Some(slot),
                _ => after.stack.votes == tower.stack.votes,
            }
        }),
{
    let (reading, ancestors, source) = match arrival {
        Arrival::Own { reading, ancestors } => (reading, ancestors, VotingSource::Primary),
        Arrival::HotSpare { reading, ancestors, .. } => (
            reading,
            ancestors,
            VotingSource::Secondary,
        ),
    };
    if let Ok(Ok(vote)) = reading {
        lemma_judging_keeps_root(tower, vote, ancestors, source);
        if crate::validator::judge(tower, vote, ancestors, source).0 is Ok {
            law_admitted_vote_is_newest(tower, vote, ancestors, source);
        } else {
            law_rejected_vote_keeps_votes(tower, vote, ancestors, source);
        }
    }
}

/// However the votes of the validator and of its hot spare interleave, unsigned and unreadable
/// ones among them, the slots of those that are sent rise: no slot is voted for twice, and none
/// after a newer one.
pub proof fn law_sent_slots_rise(tower: TowerModel, arrivals: Seq<Arrival>)
    requires
        tower.stack.root_slot is Some,
    ensures
        forall|i: int, j: int|
            #![trigger sent_slots(tower, arrivals)[i], sent_slots(tower, arrivals)[j]]
            0 <= i < j < sent_slots(tower, arrivals).len() ==> sent_slots(tower, arrivals)[i]
                < sent_slots(tower, arrivals)[j],
        forall|i: int|
            0 <= i < sent_slots(tower, arrivals).len() ==> !tower.stack.voted_at_or_after(
                #[trigger] sent_slots(tower, arrivals)[i],
            ),
    decreases arrivals.len(),
{
    if arrivals.len() > 0 {
        let (outcome, after) = arrival_outcome(tower, arrivals.first());
        let rest = sent_slots(after, arrivals.drop_first());
        let all = sent_slots(tower, arrivals);
        lemma_arrival(tower, arrivals.first());
        law_sent_slots_rise(after, arrivals.drop_first());
        assert forall|i: int| 0 <= i < rest.len() implies !tower.stack.voted_at_or_after(
            #[trigger] rest[i],
        ) by {
            assert(!after.stack.voted_at_or_after(rest[i]));
        }
        if let Ok(VoteOutcome::Accepted { slot }) = outcome {
            assert forall|i: int| 0 < i < all.len() implies #[trigger] all[i] == rest[i - 1]
                && all[i] > slot by {
                assert(!after.stack.voted_at_or_after(rest[i - 1]));
            }
        }
    }
}

/// A slot that is not newer than the newest vote never becomes newer again.
proof fn lemma_arrivals_keep_slot_closed(tower: TowerModel, arrivals: Seq<Arrival>, slot: Slot)
    requires
        tower.stack.root_slot is Some,
        tower.stack.voted_at_or_after(slot),
    ensures
        after_arrivals(tower, arrivals).stack.root_slot is Some,
        after_arrivals(tower, arrivals).stack.voted_at_or_after(slot),
    decreases arrivals.len(),
{
    if arrivals.len() > 0 {
        lemma_arrival(tower, arrivals.first());
        lemma_arrivals_keep_slot_closed(
            arrival_outcome(tower, arrivals.first()).1,
            arrivals.drop_first(),
            slot,
        );
    }
}

/// The first vote for a slot that is accepted is the only one that is sent: whatever arrives after
/// it, a vote for that slot or for an older one, the validator's own or a signed one of the hot
/// spare, is turned down as too old and leaves the tower alone.
pub proof fn law_sent_slot_stays_closed(
    tower: TowerModel,
    first: Arrival,
    slot: Slot,
    arrivals: Seq<Arrival>,
    later: ProposedVote,
    ancestors: Set<Slot>,
)
    requires
        tower.stack.root_slot is Some,
        arrival_outcome(tower, first).0 == Ok::<VoteOutcome, VoteFault>(
            VoteOutcome::Accepted { slot },
        ),
        later.slot <= slot,
    ensures
        ({
            let after = after_arrivals(arrival_outcome(tower, first).1, arrivals);
            let error = VoteValidatorError::VoteTooOld {
                attempted_slot: later.slot,
                last_voted_slot: after.stack.last_voted_slot(),
                root_slot: after.root(),
            };
            let turned_down = (
                Ok::<VoteOutcome, VoteFault>(VoteOutcome::Rejected { slot: later.slot, error }),
                after,
            );
            &&& arrival_outcome(after, Arrival::Own { reading: Ok(Ok(later)), ancestors })
                == turned_down
            &&& arrival_outcome(
                after,
                Arrival::HotSpare { signed: Ok(true), reading: Ok(Ok(later)), ancestors },
            ) == turned_down
        }),
{
    lemma_arrival(tower, first);
    lemma_arrivals_keep_slot_closed(arrival_outcome(tower, first).1, arrivals, slot);
}

/// A vote goes unjudged in one situation alone: the tower stands on slot 0 with a full stack, and
/// a vote for a newer slot would make the oldest vote the root, where that is on another fork.
pub proof fn law_unjudgeable_vote_would_root_another_fork(
    tower: TowerModel,
    slot: Slot,
    ancestors: Set<Slot>,
)
    requires
        tower.stack.root_slot is Some,
        !crate::validator::is_judgeable(tower, slot, ancestors),
    ensures
        tower.root() == 0,
        tower.stack.votes.len() >= MAX_LOCKOUT_HISTORY,
        crate::validator::bootstrapped(tower),
        !tower.stack.voted_at_or_after(slot),
        tower.stack.after_vote(slot).root_slot == Some(tower.stack.votes[0].slot),
        crate::tower::is_off_fork(tower.stack.votes[0], slot, ancestors),
{
    law_only_expired_votes_are_dropped(tower.stack.votes, slot);
}

/// The first vote for a slot that the tower takes is the one that is sent: any vote for that slot
/// or for an older one that comes after it, from either side, is turned down as too old.
pub proof fn law_first_accepted_vote_wins(
    tower: TowerModel,
    vote: ProposedVote,
    ancestors: Set<Slot>,
    source: VotingSource,
    later: ProposedVote,
    later_ancestors: Set<Slot>,
    later_source: VotingSource,
)
    requires
        crate::voting_service::submission(tower, vote, ancestors, source).0 == Ok::<
            VoteOutcome,
            VoteFault,
        >(VoteOutcome::Accepted { slot: vote.slot }),
        later.slot <= vote.slot,
    ensures
        ({
            let after = crate::voting_service::submission(tower, vote, ancestors, source).1;
            let error = VoteValidatorError::VoteTooOld {
                attempted_slot: later.slot,
                last_voted_slot: Some(vote.slot),
                root_slot: after.root(),
            };
            crate::voting_service::submission(after, later, later_ancestors, later_source) == (
                Ok::<VoteOutcome, VoteFault>(VoteOutcome::Rejected { slot: later.slot, error }),
                after,
            )
        }),
{
    law_first_admitted_vote_wins(
        tower,
        vote,
        ancestors,
        source,
        later,
        later_ancestors,
        later_source,
    );
    law_admitted_vote_is_newest(tower, vote, ancestors, source);
}

/// A vote that is not accepted leaves the votes of the tower as they were, and one that cannot be
/// handled leaves the whole tower alone.
pub proof fn law_only_accepted_votes_enter_the_tower(
    tower: TowerModel,
    reading: Result<Result<ProposedVote, VoteOpError>, VoteFault>,
    ancestors: Set<Slot>,
    source: VotingSource,
)
    requires
        tower.stack.root_slot is Some,
    ensures
        ({
            let (outcome, after) = crate::voting_service::handling(
                tower,
                reading,
                ancestors,
                source,
            );
            &&& !(outcome matches Ok(VoteOutcome::Accepted { .. })) ==> after.stack.votes
                == tower.stack.votes && after.last_vote == tower.last_vote
            &&& outcome is Err ==> after == tower
        }),
{
    if let Ok(Ok(vote)) = reading {
        if crate::validator::judge(tower, vote, ancestors, source).0 is Err {
            law_rejected_vote_keeps_votes(tower, vote, ancestors, source);
        }
    }
}

/// A vote of the hot spare is accepted only if it is signed by the vote account and the tower is
/// bootstrapped; without the signature it leaves the tower alone.
pub proof fn law_hot_spare_needs_signature_and_bootstrap(
    tower: TowerModel,
    signed: Result<bool, VoteFault>,
    reading: Result<Result<ProposedVote, VoteOpError>, VoteFault>,
    ancestors: Set<Slot>,
)
    ensures
        ({
            let (outcome, after) = crate::voting_service::udp_handling(
                tower,
                signed,
                reading,
                ancestors,
            );
            &&& outcome matches Ok(VoteOutcome::Accepted { .. }) ==> signed == Ok::<
                bool,
                VoteFault,
            >(true) && tower.stack.votes.len() >= VOTE_THRESHOLD_DEPTH
            &&& signed != Ok::<bool, VoteFault>(true) ==> after == tower
        }),
{
}

/// A vote is signed by the vote account only if that is among the keys that must sign, and the
/// signatures verify.
pub proof fn law_signed_vote_names_and_verifies_signer(
    transaction: TransactionModel,
    key: Pubkey,
    verifies: bool,
)
    ensures
        crate::voting_service::signing(transaction, key, verifies) == Ok::<bool, VoteFault>(true)
            <==> transaction.message.signers_are_listed() && transaction.message.requires_signer(
            key,
        ) && transaction.message.fits_wire() && verifies,
{
}

/// A vote goes to every coming leader, in their order, and to nobody else; if there is none, it
/// goes to the validator itself.
pub proof fn law_vote_goes_to_every_leader<A>(sockets: Seq<A>)
    ensures
        sockets.len() == 0 ==> crate::delivery::receivers(sockets) == seq![None::<A>],
        sockets.len() > 0 ==> crate::delivery::receivers(sockets).len() == sockets.len(),
        forall|i: int|
            0 <= i < sockets.len() ==> #[trigger] crate::delivery::receivers(sockets)[i] == Some(
                sockets[i],
            ),
{
}

/// The tower of a vote is stored before anything else happens to the vote, and if the storage
/// fails nothing does: leaders are looked up only once there is no tower left to store, the vote
/// is sent only once they are known, and published only once nobody is left waiting for it.
pub proof fn law_delivery_keeps_its_order<S, A>(
    vote_op: VoteOp<S>,
    stage: DeliveryModel<A>,
    event: DeliveryEvent<A>,
    next: DeliveryModel<A>,
    action: DeliveryAction<S, A>,
)
    requires
        crate::delivery::is_step(vote_op, stage, event, next, action),
    ensures
        stage.awaits(event),
        action is StoreTower <==> event is Admitted && vote_op.tower_to_store() is Some,
        action is FindLeaders <==> (event is Admitted && vote_op.tower_to_store() is None)
            || event == (DeliveryEvent::<A>::TowerStored { stored: true }),
        action is Exit <==> event == (DeliveryEvent::<A>::TowerStored { stored: false }),
        action is Send <==> event is LeadersFound || (stage matches DeliveryModel::Sending {
            waiting,
        } && waiting.len() > 0),
        action is Publish <==> (stage matches DeliveryModel::Sending { waiting } && waiting.len()
            == 0),
        next is Over <==> action is Publish || action is Exit,
{
    if let DeliveryEvent::LeadersFound { sockets } = event {
        law_vote_goes_to_every_leader(sockets@);
    }
}

/// A send that failed changes nothing about what is done next.
pub proof fn law_failed_send_makes_no_difference<S, A>(
    vote_op: VoteOp<S>,
    stage: DeliveryModel<A>,
    delivered: bool,
    next: DeliveryModel<A>,
    action: DeliveryAction<S, A>,
)
    ensures
        crate::delivery::is_step(vote_op, stage, DeliveryEvent::Sent { delivered }, next, action)
            == crate::delivery::is_step(
            vote_op,
            stage,
            DeliveryEvent::Sent { delivered: !delivered },
            next,
            action,
        ),
{
}

/// Whether `actions` are what is done for `vote_op` upon `events`, with the delivery at
/// `stages[i]` before the event at `i`.
pub open spec fn is_delivery<S, A>(
    vote_op: VoteOp<S>,
    stages: Seq<DeliveryModel<A>>,
    events: Seq<DeliveryEvent<A>>,
    actions: Seq<DeliveryAction<S, A>>,
) -> bool {
    &&& actions.len() == events.len()
    &&& stages.len() == events.len() + 1
    &&& stages[0] == DeliveryModel::<A>::Admitted
    &&& forall|i: int|
        0 <= i < events.len() ==> crate::delivery::is_step(
            vote_op,
            stages[i],
            events[i],
            stages[i + 1],
            #[trigger] actions[i],
        )
}

/// The position in a delivery at which the leaders are known: a tower that has to be stored first
/// takes one step more.
pub open spec fn leaders_known_at<S>(vote_op: VoteOp<S>) -> int {
    if vote_op matches VoteOp::PushVote { saved_tower: Some(_), .. } {
        2
    } else {
        1
    }
}

/// The receivers of the vote in a delivery that has come to know the leaders.
pub open spec fn delivery_receivers<S, A>(
    vote_op: VoteOp<S>,
    events: Seq<DeliveryEvent<A>>,
) -> Seq<Option<A>> {
    crate::delivery::receivers(events[leaders_known_at(vote_op)]->sockets@)
}

/// A delivery up to the lookup of leaders: the storage of the tower, if there is one, comes first,
/// and unless it fails the lookup comes next.
proof fn lemma_delivery_before_leaders<S, A>(
    vote_op: VoteOp<S>,
    stages: Seq<DeliveryModel<A>>,
    events: Seq<DeliveryEvent<A>>,
    actions: Seq<DeliveryAction<S, A>>,
)
    requires
        is_delivery(vote_op, stages, events, actions),
    ensures
        forall|i: int|
            0 <= i < leaders_known_at(vote_op) && i < actions.len() ==> !(
            #[trigger] actions[i] is Send) && !(actions[i] is Publish),
        vote_op.tower_to_store() is Some && events.len() > 0 ==> actions[0] is StoreTower,
        events.len() > leaders_known_at(vote_op) ==> {
            &&& stages[leaders_known_at(vote_op)] is FindingLeaders
            &&& events[leaders_known_at(vote_op)] is LeadersFound
            &&& vote_op.tower_to_store() is Some ==> events[1] == (DeliveryEvent::<
                A,
            >::TowerStored { stored: true })
        },
{
    if events.len() > 0 {
        assert(crate::delivery::is_step(vote_op, stages[0], events[0], stages[1], actions[0]));
    }
    if events.len() > 1 {
        assert(crate::delivery::is_step(vote_op, stages[1], events[1], stages[2], actions[1]));
    }
    if events.len() > 2 {
        assert(crate::delivery::is_step(vote_op, stages[2], events[2], stages[3], actions[2]));
    }
}

/// The `k`-th step once the leaders are known sends the vote to the `k`-th receiver.
proof fn lemma_delivery_sends_in_turn<S, A>(
    vote_op: VoteOp<S>,
    stages: Seq<DeliveryModel<A>>,
    events: Seq<DeliveryEvent<A>>,
    actions: Seq<DeliveryAction<S, A>>,
    k: int,
)
    requires
        is_delivery(vote_op, stages, events, actions),
        0 <= k < delivery_receivers(vote_op, events).len(),
        leaders_known_at(vote_op) + k < events.len(),
    ensures
        crate::delivery::is_send_to_first(
            vote_op,
            delivery_receivers(vote_op, events).skip(k),
            stages[leaders_known_at(vote_op) + k + 1],
            actions[leaders_known_at(vote_op) + k],
        ),
    decreases k,
{
    let known = leaders_known_at(vote_op);
    let receivers = delivery_receivers(vote_op, events);
    lemma_delivery_before_leaders(vote_op, stages, events, actions);
    assert(crate::delivery::is_step(
        vote_op,
        stages[known + k],
        events[known + k],
        stages[known + k + 1],
        actions[known + k],
    ));
    if k == 0 {
        assert(receivers.skip(0) =~= receivers);
    } else {
        lemma_delivery_sends_in_turn(vote_op, stages, events, actions, k - 1);
        assert(receivers.skip(k - 1).skip(1) =~= receivers.skip(k));
    }
}

/// A vote is published once, after all sends: in any delivery that publishes the vote, every
/// receiver has been sent its own transaction in turn before, whatever became of each send: each
/// leader in their order, or the validator itself if there is none. The publication is that of a
/// new vote with its own tower slots and transaction exactly if the vote is a new one, and that of
/// a vote sent again with its own transaction and slot exactly if the vote is sent again. It comes
/// directly after the last send and ends the delivery. A tower that has to be stored was stored
/// before the first send.
pub proof fn law_vote_is_published_after_every_send<S, A>(
    vote_op: VoteOp<S>,
    stages: Seq<DeliveryModel<A>>,
    events: Seq<DeliveryEvent<A>>,
    actions: Seq<DeliveryAction<S, A>>,
    index: int,
)
    requires
        is_delivery(vote_op, stages, events, actions),
        0 <= index < actions.len(),
        actions[index] is Publish,
    ensures
        ({
            let known = leaders_known_at(vote_op);
            let sockets = events[known]->sockets@;
            let sends: int = if sockets.len() == 0 {
                1
            } else {
                sockets.len() as int
            };
            let publication = actions[index]->publication;
            &&& events[known] is LeadersFound
            &&& index == known + sends
            &&& actions.len() == index + 1
            &&& publication is PushVote <==> vote_op is PushVote
            &&& publication is RefreshVote <==> vote_op is RefreshVote
            &&& vote_op matches VoteOp::PushVote { tx, tower_slots, .. } ==> (
            publication matches Publication::PushVote { tower_slots: slots, tx: published }
                && *slots == tower_slots && *published == tx)
            &&& vote_op matches VoteOp::RefreshVote { tx, last_voted_slot } ==> (
            publication matches Publication::RefreshVote { tx: published, last_voted_slot: slot }
                && *published == tx && slot == last_voted_slot)
            &&& forall|k: int|
                0 <= k < sends ==> (#[trigger] actions[known + k] matches DeliveryAction::Send {
                    tpu,
                    tx,
                } && {
                    &&& sockets.len() == 0 ==> tpu is None
                    &&& sockets.len() > 0 ==> tpu == Some(sockets[k])
                    &&& vote_op matches VoteOp::PushVote { tx: own, .. } ==> *tx == own
                    &&& vote_op matches VoteOp::RefreshVote { tx: own, .. } ==> *tx == own
                })
            &&& forall|i: int| 0 <= i < known ==> !(#[trigger] actions[i] is Send)
            &&& vote_op matches VoteOp::PushVote { saved_tower: Some(tower), .. } ==> (
            actions[0] matches DeliveryAction::StoreTower { saved_tower: stored } && *stored
                == tower) && events[1] == (DeliveryEvent::<A>::TowerStored { stored: true })
        }),
{
    let known = leaders_known_at(vote_op);
    let receivers = delivery_receivers(vote_op, events);
    lemma_delivery_before_leaders(vote_op, stages, events, actions);
    law_vote_goes_to_every_leader(events[known]->sockets@);
    assert(known <= index);
    assert forall|k: int| 0 <= k < receivers.len() && known + k < events.len() implies {
        &&& crate::delivery::is_send_to(vote_op, receivers[k], #[trigger] actions[known + k])
        &&& stages[known + k + 1] == (DeliveryModel::Sending { waiting: receivers.skip(k + 1) })
    } by {
        lemma_delivery_sends_in_turn(vote_op, stages, events, actions, k);
        assert(receivers.skip(k)[0] == receivers[k]);
        assert(receivers.skip(k).skip(1) =~= receivers.skip(k + 1));
    }
    let last: int = known + receivers.len();
    if index < last {
        assert(actions[known + (index - known)] is Send);
    }
    assert(actions[known + (receivers.len() - 1)] is Send);
    assert(crate::delivery::is_step(
        vote_op,
        stages[last],
        events[last],
        stages[last + 1],
        actions[last],
    ));
    if events.len() > last + 1 {
        assert(crate::delivery::is_step(
            vote_op,
            stages[last + 1],
            events[last + 1],
            stages[last + 2],
            actions[last + 1],
        ));
    }
}

/// A delivery that is over has published the vote, unless the tower could not be stored.
pub proof fn law_delivery_ends_with_publication<S, A>(
    vote_op: VoteOp<S>,
    stages: Seq<DeliveryModel<A>>,
    events: Seq<DeliveryEvent<A>>,
    actions: Seq<DeliveryAction<S, A>>,
)
    requires
        is_delivery(vote_op, stages, events, actions),
        stages.last() is Over,
        !events.contains(DeliveryEvent::TowerStored { stored: false }),
    ensures
        actions.len() > 0,
        actions.last() is Publish,
{
    let i: int = events.len() - 1;
    assert(crate::delivery::is_step(vote_op, stages[i], events[i], stages[i + 1], actions[i]));
    law_delivery_keeps_its_order(vote_op, stages[i], events[i], stages[i + 1], actions[i]);
}

/// If the tower cannot be stored, the vote is neither sent nor published.
pub proof fn law_failed_storage_sends_nothing<S, A>(
    vote_op: VoteOp<S>,
    stages: Seq<DeliveryModel<A>>,
    events: Seq<DeliveryEvent<A>>,
    actions: Seq<DeliveryAction<S, A>>,
    index: int,
)
    requires
        is_delivery(vote_op, stages, events, actions),
        0 <= index < events.len(),
        events[index] == (DeliveryEvent::<A>::TowerStored { stored: false }),
    ensures
        actions.last() is Exit,
        forall|i: int|
            0 <= i < actions.len() ==> !(#[trigger] actions[i] is Send) && !(
            actions[i] is Publish),
{
    lemma_delivery_before_leaders(vote_op, stages, events, actions);
    assert(crate::delivery::is_step(vote_op, stages[0], events[0], stages[1], actions[0]));
    if events.len() > 1 {
        assert(crate::delivery::is_step(vote_op, stages[1], events[1], stages[2], actions[1]));
    }
    if events.len() > 2 {
        assert(crate::delivery::is_step(vote_op, stages[2], events[2], stages[3], actions[2]));
    }
    if index > leaders_known_at(vote_op) {
        lemma_no_storage_after_lookup(vote_op, stages, events, actions, index);
    }
}

/// Once the leaders are looked up, the delivery only sends until it is over.
proof fn lemma_no_storage_after_lookup<S, A>(
    vote_op: VoteOp<S>,
    stages: Seq<DeliveryModel<A>>,
    events: Seq<DeliveryEvent<A>>,
    actions: Seq<DeliveryAction<S, A>>,
    index: int,
)
    requires
        is_delivery(vote_op, stages, events, actions),
        leaders_known_at(vote_op) < index < events.len(),
    ensures
        stages[index] is Sending,
        events[index] is Sent,
    decreases index,
{
    lemma_delivery_before_leaders(vote_op, stages, events, actions);
    assert(crate::delivery::is_step(
        vote_op,
        stages[index],
        events[index],
        stages[index + 1],
        actions[index],
    ));
    assert(crate::delivery::is_step(
        vote_op,
        stages[index - 1],
        events[index - 1],
        stages[index],
        actions[index - 1],
    ));
    if index - 1 > leaders_known_at(vote_op) {
        lemma_no_storage_after_lookup(vote_op, stages, events, actions, index - 1);
    }
}

} // verus!
