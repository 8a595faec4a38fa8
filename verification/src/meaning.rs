//! What the operations mean: for each, what comes out is said in terms of what goes in.
use crate::delivery::{DeliveryAction, DeliveryEvent, DeliveryModel, DeliveryStage, Publication};
use crate::instruction::{TowerSyncModel, VoteInstruction, VoteInstructionModel, VoteOpError};
use crate::lockout::{Lockout, Slot};
use crate::tower::{LastVoteModel, Tower, TowerModel};
use crate::transaction::{MessageModel, Pubkey, Transaction, TransactionModel};
use crate::validator::{ProposedVote, TowerVoteValidator, VoteValidatorError, VotingSource};
use crate::vote_op::VoteOp;
use crate::vote_state::VoteStack;
use crate::voting_service::{VoteFault, VoteOutcome};
use vstd::arithmetic::power2::pow2;
use vstd::prelude::*;

verus! {

/// A lockout doubles with each confirmation, up to the 31st: it starts at one slot, and
/// confirmations beyond the 31st add nothing.
pub proof fn law_lockout_doubles_with_each_confirmation(count: u32)
    ensures
        crate::lockout::lockout_span(0) == 1,
        count < 31 ==> crate::lockout::lockout_span((count + 1) as u32) == 2
            * crate::lockout::lockout_span(count),
        count >= 31 ==> crate::lockout::lockout_span(count) == crate::lockout::lockout_span(31),
{
    vstd::arithmetic::power2::lemma2_to64();
    if count < 31 {
        vstd::arithmetic::power2::lemma_pow2_unfold((count + 1) as nat);
    }
}

/// A vote binds at its own slot, at every older one, and for as many slots after it as two to the
/// power of its confirmations, of which 31 count.
pub proof fn law_vote_binds_for_its_lockout(vote: Lockout, slot: Slot)
    ensures
        slot <= vote.slot ==> vote.binds_at(slot),
        vote.confirmation_count <= 31 ==> (vote.binds_at(slot) <==> slot - vote.slot <= pow2(
            vote.confirmation_count as nat,
        )),
        vote.confirmation_count > 31 ==> (vote.binds_at(slot) <==> slot - vote.slot
            <= 0x8000_0000),
{
    vstd::arithmetic::power2::lemma2_to64();
}

/// The votes left at a slot are those up to the newest one that still binds there.
pub proof fn law_votes_up_to_the_newest_binding_one_are_left(
    votes: Seq<Lockout>,
    slot: Slot,
    count: int,
)
    requires
        0 <= count <= votes.len(),
        count > 0 ==> votes[count - 1].binds_at(slot),
        forall|i: int| count <= i < votes.len() ==> !(#[trigger] votes[i]).binds_at(slot),
    ensures
        crate::vote_state::unexpired(votes, slot) == votes.take(count),
    decreases votes.len(),
{
    if count == votes.len() {
        assert(votes.take(count) =~= votes);
    } else {
        let older = votes.drop_last();
        assert forall|i: int| count <= i < older.len() implies !(#[trigger] older[i]).binds_at(
            slot,
        ) by {
            assert(older[i] == votes[i]);
        }
        law_votes_up_to_the_newest_binding_one_are_left(older, slot, count);
        assert(older.take(count) =~= votes.take(count));
    }
}

/// Of the votes that are left at a slot the newest still binds there.
pub proof fn law_newest_vote_left_still_binds(votes: Seq<Lockout>, slot: Slot)
    ensures
        ({
            let left = crate::vote_state::unexpired(votes, slot);
            &&& left.len() <= votes.len()
            &&& left.len() > 0 ==> left[left.len() - 1].binds_at(slot)
            &&& forall|i: int| 0 <= i < left.len() ==> #[trigger] left[i] == votes[i]
            &&& forall|i: int|
                left.len() <= i < votes.len() ==> !(#[trigger] votes[i]).binds_at(slot)
        }),
    decreases votes.len(),
{
    crate::laws::law_only_expired_votes_are_dropped(votes, slot);
    if votes.len() > 0 && !votes.last().binds_at(slot) {
        law_newest_vote_left_still_binds(votes.drop_last(), slot);
    }
}

/// A vote that is not newer than the newest one changes nothing.
pub proof fn law_older_vote_changes_nothing(stack: VoteStack, slot: Slot)
    requires
        stack.votes.len() > 0,
        slot <= stack.votes[stack.votes.len() - 1].slot,
    ensures
        stack.after_vote(slot) == stack,
{
}

/// A newer vote comes to stand on top of the votes that are left at its slot, with one
/// confirmation, on the root that was there. Only if 31 votes are left does the oldest go and
/// become the root. A vote below the new one keeps its slot, and gains one confirmation exactly if
/// it has fewer than there are votes from it to the top, and can count one more.
pub proof fn law_newer_vote_stands_on_the_votes_left(stack: VoteStack, slot: Slot)
    requires
        stack.votes.len() > 0 ==> stack.votes[stack.votes.len() - 1].slot < slot,
    ensures
        ({
            let left = crate::vote_state::unexpired(stack.votes, slot).len();
            let gone: int = if left == 31 {
                1
            } else {
                0
            };
            let after = stack.after_vote(slot);
            &&& after.votes.len() == left - gone + 1
            &&& after.votes[left - gone].slot == slot
            &&& after.votes[left - gone].confirmation_count == 1
            &&& left == 31 ==> after.root_slot == Some(stack.votes[0].slot)
            &&& left != 31 ==> after.root_slot == stack.root_slot
            &&& forall|i: int|
                0 <= i < left - gone ==> {
                    let before = stack.votes[i + gone];
                    let vote = #[trigger] after.votes[i];
                    &&& vote.slot == before.slot
                    &&& before.confirmation_count < u32::MAX && before.confirmation_count
                        < after.votes.len() - i ==> vote.confirmation_count
                        == before.confirmation_count + 1
                    &&& before.confirmation_count == u32::MAX || before.confirmation_count
                        >= after.votes.len() - i ==> vote.confirmation_count
                        == before.confirmation_count
                }
        }),
{
    law_newest_vote_left_still_binds(stack.votes, slot);
    let kept = crate::vote_state::unexpired(stack.votes, slot);
    if kept.len() == 31 {
        assert(forall|i: int|
            0 <= i < 30 ==> #[trigger] kept.drop_first()[i] == stack.votes[i + 1]);
    }
}

/// The root moves with a newer vote exactly if the 31st vote still binds at its slot and no later
/// one does; it then moves to the oldest vote.
pub proof fn law_root_moves_when_the_stack_is_full(stack: VoteStack, slot: Slot)
    requires
        stack.votes.len() > 0 ==> stack.votes[stack.votes.len() - 1].slot < slot,
    ensures
        ({
            let full = stack.votes.len() >= 31 && stack.votes[30].binds_at(slot) && forall|i: int|
                31 <= i < stack.votes.len() ==> !(#[trigger] stack.votes[i]).binds_at(slot);
            &&& full ==> stack.after_vote(slot).root_slot == Some(stack.votes[0].slot)
            &&& !full ==> stack.after_vote(slot).root_slot == stack.root_slot
        }),
{
    law_newest_vote_left_still_binds(stack.votes, slot);
    law_newer_vote_stands_on_the_votes_left(stack, slot);
    let left = crate::vote_state::unexpired(stack.votes, slot);
    if left.len() == 31 {
        assert(left[30] == stack.votes[30]);
    } else if left.len() > 31 {
        assert(left[left.len() - 1] == stack.votes[left.len() - 1]);
    }
}

/// A slot is recent if it is newer than the newest vote; where there is no vote, if it is newer
/// than the root; and where there is no root either, in any case.
pub proof fn law_recent_slot_is_newer_than_vote_or_root(stack: VoteStack, slot: Slot)
    ensures
        stack.votes.len() > 0 ==> (stack.is_recent(slot) <==> stack.votes[stack.votes.len()
            - 1].slot < slot),
        stack.votes.len() == 0 && stack.root_slot is None ==> stack.is_recent(slot),
        stack.votes.len() == 0 && stack.root_slot is Some ==> (stack.is_recent(slot)
            <==> stack.root_slot->0 < slot),
{
}

/// After a newer vote the stack holds a vote off its fork exactly if some vote that stood at or
/// below one that still binds is off it, leaving out the oldest one if it became the root.
proof fn lemma_conflict_is_among_the_votes_left(stack: VoteStack, slot: Slot, ancestors: Set<Slot>)
    requires
        stack.votes.len() > 0 ==> stack.votes[stack.votes.len() - 1].slot < slot,
    ensures
        ({
            let left = crate::vote_state::unexpired(stack.votes, slot).len();
            let gone: int = if left == 31 {
                1
            } else {
                0
            };
            stack.conflicts_with(slot, ancestors) <==> exists|i: int|
                gone <= i < left && (#[trigger] stack.votes[i]).slot != slot && !ancestors.contains(
                    stack.votes[i].slot,
                )
        }),
{
    let left = crate::vote_state::unexpired(stack.votes, slot).len();
    let gone: int = if left == 31 {
        1
    } else {
        0
    };
    let after = stack.after_vote(slot);
    law_newer_vote_stands_on_the_votes_left(stack, slot);
    if stack.conflicts_with(slot, ancestors) {
        let k = choose|k: int|
            0 <= k < after.votes.len() && crate::tower::is_off_fork(
                #[trigger] after.votes[k],
                slot,
                ancestors,
            );
        assert(after.votes[k].slot == stack.votes[k + gone].slot);
    }
    if exists|i: int|
        gone <= i < left && (#[trigger] stack.votes[i]).slot != slot && !ancestors.contains(
            stack.votes[i].slot,
        ) {
        let i = choose|i: int|
            gone <= i < left && (#[trigger] stack.votes[i]).slot != slot && !ancestors.contains(
                stack.votes[i].slot,
            );
        assert(after.votes[i - gone].slot == stack.votes[i].slot);
        assert(crate::tower::is_off_fork(after.votes[i - gone], slot, ancestors));
    }
}

/// Where the slot descends from the root that its vote would leave, or is it, the vote conflicts
/// exactly if some vote at or below one that still binds is neither for the slot nor for one of
/// its ancestors.
proof fn lemma_conflict_on_the_roots_fork(stack: VoteStack, slot: Slot, ancestors: Set<Slot>)
    requires
        stack.votes.len() > 0 ==> stack.votes[stack.votes.len() - 1].slot < slot,
        stack.conflicts_with(slot, ancestors) || (stack.after_vote(slot).root_slot matches Some(
            root,
        ) ==> root == slot || ancestors.contains(root)),
    ensures
        stack.conflicts_with(slot, ancestors) <==> exists|i: int, j: int|
            #![trigger stack.votes[i], stack.votes[j]]
            0 <= i <= j < stack.votes.len() && stack.votes[j].binds_at(slot) && stack.votes[i].slot
                != slot && !ancestors.contains(stack.votes[i].slot),
{
    let kept = crate::vote_state::unexpired(stack.votes, slot);
    law_newest_vote_left_still_binds(stack.votes, slot);
    law_newer_vote_stands_on_the_votes_left(stack, slot);
    lemma_conflict_is_among_the_votes_left(stack, slot, ancestors);
    if stack.conflicts_with(slot, ancestors) {
        assert(kept[kept.len() - 1] == stack.votes[kept.len() - 1]);
    }
}

/// A slot is locked out if it is not recent, or if some vote that stands at or below one that
/// still binds is neither for the slot nor for one of its ancestors.
pub proof fn law_slot_off_a_binding_votes_fork_is_locked_out(
    stack: VoteStack,
    slot: Slot,
    ancestors: Set<Slot>,
)
    requires
        stack.lockout_is_decided(slot, ancestors),
    ensures
        ({
            let newer = if stack.votes.len() > 0 {
                stack.votes[stack.votes.len() - 1].slot < slot
            } else {
                stack.root_slot matches Some(root) ==> root < slot
            };
            stack.locks_out(slot, ancestors) <==> !newer || exists|i: int, j: int|
                #![trigger stack.votes[i], stack.votes[j]]
                0 <= i <= j < stack.votes.len() && stack.votes[j].binds_at(slot)
                    && stack.votes[i].slot != slot && !ancestors.contains(stack.votes[i].slot)
        }),
{
    if stack.is_recent(slot) {
        lemma_conflict_on_the_roots_fork(stack, slot, ancestors);
    }
}

/// Whether a slot is locked out is left undecided exactly if the slot is recent, the root that its
/// vote would leave is neither the slot nor one of its ancestors, and each vote that would be left
/// above that root is.
pub proof fn law_lockout_is_undecided_off_the_roots_fork(
    stack: VoteStack,
    slot: Slot,
    ancestors: Set<Slot>,
)
    ensures
        ({
            let newer = if stack.votes.len() > 0 {
                stack.votes[stack.votes.len() - 1].slot < slot
            } else {
                stack.root_slot matches Some(root) ==> root < slot
            };
            let after = stack.after_vote(slot);
            !stack.lockout_is_decided(slot, ancestors) <==> {
                &&& newer
                &&& after.root_slot matches Some(root) && root != slot && !ancestors.contains(root)
                &&& forall|i: int|
                    0 <= i < after.votes.len() ==> (#[trigger] after.votes[i]).slot == slot
                        || ancestors.contains(after.votes[i].slot)
            }
        }),
{
    let after = stack.after_vote(slot);
    if stack.conflicts_with(slot, ancestors) {
        let i = choose|i: int|
            0 <= i < after.votes.len() && crate::tower::is_off_fork(
                #[trigger] after.votes[i],
                slot,
                ancestors,
            );
        assert(after.votes[i].slot != slot && !ancestors.contains(after.votes[i].slot));
    }
}

/// The root to fall back on is the one ancestor below the slot that no other such ancestor
/// exceeds; there is none exactly if no ancestor is below the slot.
pub proof fn law_fallback_root_is_the_highest_ancestor_below(
    ancestors: Set<Slot>,
    slot: Slot,
    root: Slot,
)
    ensures
        crate::validator::root_candidate(ancestors, slot) == Some(root) <==> {
            &&& ancestors.contains(root)
            &&& root < slot
            &&& forall|other: Slot| #[trigger]
                ancestors.contains(other) && other < slot ==> other <= root
        },
        crate::validator::root_candidate(ancestors, slot) is None <==> forall|other: Slot|
            #[trigger] ancestors.contains(other) ==> slot <= other,
{
    crate::laws::law_root_candidate_is_highest_ancestor(ancestors, slot);
    if crate::validator::is_highest_below(ancestors, slot, root) {
        let found = crate::validator::root_candidate(ancestors, slot)->0;
        assert(found <= root && root <= found);
    }
}

/// A vote is turned down as too old exactly if it is not newer than the newest vote, whoever made
/// it, and the tower is left as it was.
pub proof fn law_vote_not_newer_than_the_newest_is_too_old(
    tower: TowerModel,
    root: Slot,
    vote: ProposedVote,
    ancestors: Set<Slot>,
    source: VotingSource,
)
    requires
        tower.stack.root_slot == Some(root),
    ensures
        ({
            let votes = tower.stack.votes;
            let judged = crate::validator::judge(tower, vote, ancestors, source);
            &&& votes.len() > 0 && vote.slot <= votes[votes.len() - 1].slot ==> judged == (
                Err::<(), VoteValidatorError>(
                    VoteValidatorError::VoteTooOld {
                        attempted_slot: vote.slot,
                        last_voted_slot: Some(votes[votes.len() - 1].slot),
                        root_slot: root,
                    },
                ),
                tower,
            )
            &&& judged.0 matches Err(VoteValidatorError::VoteTooOld { .. }) ==> votes.len() > 0
                && vote.slot <= votes[votes.len() - 1].slot
        }),
{
}

/// A newer vote is put off while the tower bootstraps exactly if it is the hot spare's and the
/// tower holds fewer than eight votes; the tower is left as it was. How far apart the slots of
/// those votes are makes no difference.
pub proof fn law_hot_spare_is_put_off_below_eight_votes(
    tower: TowerModel,
    vote: ProposedVote,
    ancestors: Set<Slot>,
    source: VotingSource,
)
    ensures
        ({
            let votes = tower.stack.votes;
            let judged = crate::validator::judge(tower, vote, ancestors, source);
            let newer = votes.len() > 0 ==> votes[votes.len() - 1].slot < vote.slot;
            let put_off = Err::<(), VoteValidatorError>(VoteValidatorError::Bootstrapping);
            &&& judged.0 == put_off <==> newer && votes.len() < 8 && source
                == VotingSource::Secondary
            &&& votes.len() < 8 && source == VotingSource::Secondary ==> judged.0 is Err
                && judged.1 == tower
        }),
{
}

/// A tower is bootstrapped exactly if it holds eight votes or more.
pub proof fn law_eight_votes_bootstrap_a_tower(tower: TowerModel)
    ensures
        tower.stack.votes.len() >= 8 ==> crate::validator::bootstrapped(tower),
        tower.stack.votes.len() < 8 ==> !crate::validator::bootstrapped(tower),
{
}

/// The verdict where the tower does not start over: on a root other than 0, if the root that the
/// vote would leave is the slot or one of its ancestors, and on root 0, if that is an ancestor of
/// the slot. A newer vote that is heard is turned down as inconsistent if there are no votes and
/// the slot is not newer than the root; as locked out if some vote that stands at or below one
/// that still binds is neither for the slot nor for one of its ancestors; and is admitted
/// otherwise. A vote that is turned down leaves the tower as it was, and an admitted one becomes
/// its last vote.
pub proof fn law_lockouts_alone_decide_on_the_roots_fork(
    tower: TowerModel,
    root: Slot,
    vote: ProposedVote,
    ancestors: Set<Slot>,
    source: VotingSource,
)
    requires
        tower.stack.root_slot == Some(root),
        tower.stack.votes.len() > 0 ==> tower.stack.votes[tower.stack.votes.len() - 1].slot
            < vote.slot,
        source == VotingSource::Primary || tower.stack.votes.len() >= 8,
        root != 0 ==> (tower.stack.after_vote(vote.slot).root_slot matches Some(next) && (next
            == vote.slot || ancestors.contains(next))),
        root == 0 ==> ancestors.contains(0) && crate::validator::is_judgeable(
            tower,
            vote.slot,
            ancestors,
        ),
    ensures
        ({
            let votes = tower.stack.votes;
            let after = tower.stack.after_vote(vote.slot);
            let locked_out = exists|i: int, j: int|
                #![trigger votes[i], votes[j]]
                0 <= i <= j < votes.len() && votes[j].binds_at(vote.slot) && votes[i].slot
                    != vote.slot && !ancestors.contains(votes[i].slot);
            let inconsistent = VoteValidatorError::BootstrapVoteInconsistent {
                attempted_slot: vote.slot,
                last_voted_slot: None,
                root_slot: Some(root),
            };
            let (verdict, left) = crate::validator::judge(tower, vote, ancestors, source);
            if votes.len() == 0 && vote.slot <= root {
                verdict == Err::<(), VoteValidatorError>(inconsistent) && left == tower
            } else if locked_out {
                verdict == Err::<(), VoteValidatorError>(VoteValidatorError::LockedOut(vote.slot))
                    && left == tower
            } else {
                &&& verdict is Ok
                &&& left.stack == after
                &&& left.last_vote.lockouts == after.votes
                &&& left.last_vote.root == after.root_slot
                &&& left.last_vote.hash == vote.hash@
                &&& left.last_vote.block_id == vote.block_id@
            }
        }),
{
    if tower.stack.votes.len() > 0 || root < vote.slot {
        lemma_conflict_on_the_roots_fork(tower.stack, vote.slot, ancestors);
    }
}

/// A vote that breaks a lockout is turned down as locked out and leaves the tower as it was: on a
/// root other than 0, if the root that the vote would leave is the slot or one of its ancestors,
/// one vote of the tower that still binds at the slot and is neither for it nor for one of its
/// ancestors is enough.
pub proof fn law_vote_against_a_binding_vote_is_locked_out(
    tower: TowerModel,
    vote: ProposedVote,
    ancestors: Set<Slot>,
    source: VotingSource,
    index: int,
)
    requires
        tower.stack.root_slot matches Some(root) && root != 0,
        tower.stack.after_vote(vote.slot).root_slot matches Some(next) && (next == vote.slot
            || ancestors.contains(next)),
        tower.stack.votes[tower.stack.votes.len() - 1].slot < vote.slot,
        source == VotingSource::Primary || tower.stack.votes.len() >= 8,
        0 <= index < tower.stack.votes.len(),
        tower.stack.votes[index].binds_at(vote.slot),
        tower.stack.votes[index].slot != vote.slot,
        !ancestors.contains(tower.stack.votes[index].slot),
    ensures
        crate::validator::judge(tower, vote, ancestors, source) == (
            Err::<(), VoteValidatorError>(VoteValidatorError::LockedOut(vote.slot)),
            tower,
        ),
{
    law_lockouts_alone_decide_on_the_roots_fork(
        tower,
        tower.stack.root_slot->0,
        vote,
        ancestors,
        source,
    );
}

/// A tower that is not full keeps its votes and its root under a vote that breaks a lockout, as
/// long as its root is an ancestor of the slot: whether the newest vote is one makes no difference.
pub proof fn law_tower_on_an_ancestor_never_starts_over(
    tower: TowerModel,
    root: Slot,
    vote: ProposedVote,
    ancestors: Set<Slot>,
    source: VotingSource,
)
    requires
        tower.stack.root_slot == Some(root),
        ancestors.contains(root),
        tower.stack.votes.len() < 31,
    ensures
        ({
            let votes = tower.stack.votes;
            let (verdict, left) = crate::validator::judge(tower, vote, ancestors, source);
            &&& left.stack.root_slot == Some(root)
            &&& verdict is Err ==> left == tower
            &&& verdict is Ok ==> {
                &&& forall|j: int|
                    0 <= j < votes.len() && (#[trigger] votes[j]).binds_at(vote.slot)
                        ==> j < left.stack.votes.len() && left.stack.votes[j].slot == votes[j].slot
                &&& left.stack.votes[left.stack.votes.len() - 1].slot == vote.slot
            }
        }),
{
    let votes = tower.stack.votes;
    if (votes.len() > 0 ==> votes[votes.len() - 1].slot < vote.slot) && (source
        == VotingSource::Primary || votes.len() >= 8) {
        law_newest_vote_left_still_binds(votes, vote.slot);
        law_newer_vote_stands_on_the_votes_left(tower.stack, vote.slot);
        law_lockouts_alone_decide_on_the_roots_fork(tower, root, vote, ancestors, source);
    }
}

/// A vote that would move the root is turned down if the slot is neither that new root nor
/// descends from it, and leaves the tower as it was.
pub proof fn law_root_may_not_move_off_the_fork(
    tower: TowerModel,
    root: Slot,
    next: Slot,
    vote: ProposedVote,
    ancestors: Set<Slot>,
    source: VotingSource,
)
    requires
        tower.stack.root_slot == Some(root),
        root != 0,
        tower.stack.votes.len() > 0 ==> tower.stack.votes[tower.stack.votes.len() - 1].slot
            < vote.slot,
        source == VotingSource::Primary || tower.stack.votes.len() >= 8,
        tower.stack.after_vote(vote.slot).root_slot == Some(next),
        next != root,
        next != vote.slot,
        !ancestors.contains(next),
    ensures
        crate::validator::judge(tower, vote, ancestors, source) == (
            Err::<(), VoteValidatorError>(
                VoteValidatorError::RootMismatch { vote_slot: vote.slot, tower_root: next },
            ),
            tower,
        ),
{
}

/// A tower starts over if its root stays and the slot is neither that root nor descends from it:
/// it is left with this vote alone, on the highest ancestor below the slot. If there is no such
/// ancestor the vote is turned down and the tower left as it was.
pub proof fn law_tower_off_the_fork_starts_over(
    tower: TowerModel,
    root: Slot,
    vote: ProposedVote,
    ancestors: Set<Slot>,
    source: VotingSource,
)
    requires
        tower.stack.root_slot == Some(root),
        root != 0,
        tower.stack.votes.len() > 0 ==> tower.stack.votes[tower.stack.votes.len() - 1].slot
            < vote.slot,
        source == VotingSource::Primary || tower.stack.votes.len() >= 8,
        tower.stack.after_vote(vote.slot).root_slot == Some(root),
        root != vote.slot,
        !ancestors.contains(root),
    ensures
        ({
            let (verdict, left) = crate::validator::judge(tower, vote, ancestors, source);
            if exists|a: Slot| #[trigger] ancestors.contains(a) && a < vote.slot {
                &&& verdict is Ok
                &&& left.stack.votes.len() == 1
                &&& left.stack.votes[0].slot == vote.slot
                &&& left.stack.votes[0].confirmation_count == 1
                &&& left.stack.root_slot matches Some(fallback) && ancestors.contains(fallback)
                    && fallback < vote.slot && forall|other: Slot| #[trigger]
                    ancestors.contains(other) && other < vote.slot ==> other <= fallback
                &&& left.last_vote.lockouts == left.stack.votes
                &&& left.last_vote.root == left.stack.root_slot
                &&& left.last_vote.hash == vote.hash@
                &&& left.last_vote.block_id == vote.block_id@
            } else {
                &&& verdict == Err::<(), VoteValidatorError>(
                    VoteValidatorError::RootMismatch { vote_slot: vote.slot, tower_root: root },
                )
                &&& left == tower
            }
        }),
{
    crate::laws::law_root_candidate_is_highest_ancestor(ancestors, vote.slot);
    if exists|a: Slot| #[trigger] ancestors.contains(a) && a < vote.slot {
        crate::laws::law_stale_root_starts_over(tower, vote, ancestors, source);
        crate::laws::law_admitted_vote_is_newest(tower, vote, ancestors, source);
    }
}

/// A tower on slot 0 is judged as if it stood on the highest ancestor below the slot, if slot 0 is
/// no ancestor.
pub proof fn law_tower_on_slot_zero_is_put_on_an_ancestor(
    tower: TowerModel,
    fallback: Slot,
    vote: ProposedVote,
    ancestors: Set<Slot>,
    source: VotingSource,
)
    requires
        tower.stack.root_slot == Some(0u64),
        !ancestors.contains(0),
        tower.stack.votes.len() > 0 ==> tower.stack.votes[tower.stack.votes.len() - 1].slot
            < vote.slot,
        source == VotingSource::Primary || tower.stack.votes.len() >= 8,
        ancestors.contains(fallback),
        fallback < vote.slot,
        forall|other: Slot| #[trigger]
            ancestors.contains(other) && other < vote.slot ==> other <= fallback,
    ensures
        ({
            let moved = TowerModel {
                stack: VoteStack { votes: tower.stack.votes, root_slot: Some(fallback) },
                last_vote: tower.last_vote,
            };
            crate::validator::judge(tower, vote, ancestors, source) == crate::validator::judge(
                moved,
                vote,
                ancestors,
                source,
            )
        }),
{
    law_fallback_root_is_the_highest_ancestor_below(ancestors, vote.slot, fallback);
}

/// A newer vote on a tower on slot 0 is turned down, and leaves the tower as it was, if it has no
/// ancestor to fall back on: as a root mismatch or, for slot 0 itself, as inconsistent.
pub proof fn law_vote_without_ancestors_is_turned_down(
    tower: TowerModel,
    vote: ProposedVote,
    ancestors: Set<Slot>,
    source: VotingSource,
)
    requires
        tower.stack.root_slot == Some(0u64),
        !ancestors.contains(0),
        tower.stack.votes.len() > 0 ==> tower.stack.votes[tower.stack.votes.len() - 1].slot
            < vote.slot,
        source == VotingSource::Primary || tower.stack.votes.len() >= 8,
        forall|other: Slot| #[trigger] ancestors.contains(other) ==> vote.slot <= other,
    ensures
        ({
            let (verdict, left) = crate::validator::judge(tower, vote, ancestors, source);
            &&& left == tower
            &&& vote.slot != 0 ==> verdict == Err::<(), VoteValidatorError>(
                VoteValidatorError::RootMismatch { vote_slot: vote.slot, tower_root: 0 },
            )
            &&& vote.slot == 0 ==> verdict == Err::<(), VoteValidatorError>(
                VoteValidatorError::BootstrapVoteInconsistent {
                    attempted_slot: 0,
                    last_voted_slot: None,
                    root_slot: Some(0),
                },
            )
        }),
{
    law_fallback_root_is_the_highest_ancestor_below(ancestors, vote.slot, 0);
}

/// A vote goes unjudged exactly if the tower stands on slot 0, which is an ancestor of the slot,
/// the vote is newer and would make the oldest of 31 votes the root, which is neither the slot nor
/// one of its ancestors, while each of the other thirty is.
pub proof fn law_vote_is_unjudged_only_at_a_full_stack_on_slot_zero(
    tower: TowerModel,
    root: Slot,
    slot: Slot,
    ancestors: Set<Slot>,
)
    requires
        tower.stack.root_slot == Some(root),
    ensures
        ({
            let votes = tower.stack.votes;
            !crate::validator::is_judgeable(tower, slot, ancestors) <==> {
                &&& root == 0
                &&& ancestors.contains(0)
                &&& votes.len() >= 31
                &&& votes[votes.len() - 1].slot < slot
                &&& votes[30].binds_at(slot)
                &&& forall|i: int|
                    31 <= i < votes.len() ==> !(#[trigger] votes[i]).binds_at(slot)
                &&& votes[0].slot != slot && !ancestors.contains(votes[0].slot)
                &&& forall|i: int|
                    1 <= i < 31 ==> (#[trigger] votes[i]).slot == slot || ancestors.contains(
                        votes[i].slot,
                    )
            }
        }),
{
    let votes = tower.stack.votes;
    if votes.len() > 0 ==> votes[votes.len() - 1].slot < slot {
        law_newest_vote_left_still_binds(votes, slot);
        law_newer_vote_stands_on_the_votes_left(tower.stack, slot);
        law_root_moves_when_the_stack_is_full(tower.stack, slot);
        lemma_conflict_is_among_the_votes_left(tower.stack, slot, ancestors);
        let left = crate::vote_state::unexpired(votes, slot);
        if left.len() == 31 {
            assert(left[30] == votes[30]);
        } else if left.len() > 31 {
            assert(left[left.len() - 1] == votes[left.len() - 1]);
        }
    }
}

/// A vote that can be judged is accepted exactly if the tower admits it, and turned down for the
/// tower's own reason otherwise; the tower left is the one that the verdict leaves. A vote that
/// cannot be judged is a fault and leaves the tower as it was.
pub proof fn law_submitted_vote_is_accepted_exactly_if_admitted(
    tower: TowerModel,
    vote: ProposedVote,
    ancestors: Set<Slot>,
    source: VotingSource,
)
    ensures
        ({
            let (verdict, judged) = crate::validator::judge(tower, vote, ancestors, source);
            let (outcome, left) = crate::voting_service::submission(
                tower,
                vote,
                ancestors,
                source,
            );
            let accepted = Ok::<VoteOutcome, VoteFault>(VoteOutcome::Accepted { slot: vote.slot });
            if crate::validator::is_judgeable(tower, vote.slot, ancestors) {
                &&& left == judged
                &&& outcome == accepted <==> verdict is Ok
                &&& verdict matches Err(reason) ==> outcome == Ok::<VoteOutcome, VoteFault>(
                    VoteOutcome::Rejected { slot: vote.slot, error: reason },
                )
            } else {
                outcome == Err::<VoteOutcome, VoteFault>(VoteFault::RootOffFork) && left == tower
            }
        }),
{
}

/// A vote that was read is submitted under its own source, and a signed one of the hot spare as
/// the hot spare's. Nothing else is submitted, and what is not submitted leaves the tower as it
/// was: a fault is handed on, and an instruction that is no tower sync, or a vote that is not
/// signed, is passed over.
pub proof fn law_only_a_vote_that_was_read_is_submitted(
    tower: TowerModel,
    vote: ProposedVote,
    fault: VoteFault,
    error: VoteOpError,
    read: Result<Result<ProposedVote, VoteOpError>, VoteFault>,
    ancestors: Set<Slot>,
    source: VotingSource,
)
    ensures
        crate::voting_service::handling(tower, Ok(Ok(vote)), ancestors, source)
            == crate::voting_service::submission(tower, vote, ancestors, source),
        crate::voting_service::handling(tower, Ok(Err(error)), ancestors, source) == (
            Ok::<VoteOutcome, VoteFault>(VoteOutcome::NotTowerSync),
            tower,
        ),
        crate::voting_service::handling(tower, Err(fault), ancestors, source) == (
            Err::<VoteOutcome, VoteFault>(fault),
            tower,
        ),
        crate::voting_service::udp_handling(tower, Ok(true), Ok(Ok(vote)), ancestors)
            == crate::voting_service::submission(tower, vote, ancestors, VotingSource::Secondary),
        crate::voting_service::udp_handling(tower, Ok(true), Ok(Err(error)), ancestors) == (
            Ok::<VoteOutcome, VoteFault>(VoteOutcome::NotTowerSync),
            tower,
        ),
        crate::voting_service::udp_handling(tower, Ok(true), Err(fault), ancestors) == (
            Err::<VoteOutcome, VoteFault>(fault),
            tower,
        ),
        crate::voting_service::udp_handling(tower, Ok(false), read, ancestors) == (
            Ok::<VoteOutcome, VoteFault>(VoteOutcome::NotSigned),
            tower,
        ),
        crate::voting_service::udp_handling(tower, Err(fault), read, ancestors) == (
            Err::<VoteOutcome, VoteFault>(fault),
            tower,
        ),
{
}

/// A vote that extends the tower's fork is accepted at the service, whoever made it and however
/// many slots it skips: it is newer than every vote, its ancestors hold the root and every vote,
/// and it is the validator's own or the tower holds eight votes or more. What is left is the tower
/// after this vote.
pub proof fn law_vote_that_extends_the_fork_is_accepted(
    tower: TowerModel,
    root: Slot,
    vote: ProposedVote,
    ancestors: Set<Slot>,
    source: VotingSource,
)
    requires
        tower.stack.root_slot == Some(root),
        source == VotingSource::Primary || tower.stack.votes.len() >= 8,
        tower.stack.votes.len() == 0 ==> root < vote.slot,
        tower.stack.votes.len() > 0 ==> tower.stack.votes[tower.stack.votes.len() - 1].slot
            < vote.slot,
        ancestors.contains(root),
        forall|i: int|
            0 <= i < tower.stack.votes.len() ==> ancestors.contains(
                (#[trigger] tower.stack.votes[i]).slot,
            ),
    ensures
        ({
            let accepted = (
                Ok::<VoteOutcome, VoteFault>(VoteOutcome::Accepted { slot: vote.slot }),
                tower.after_vote(vote.slot, vote.hash@, vote.block_id@),
            );
            &&& crate::voting_service::submission(tower, vote, ancestors, source) == accepted
            &&& crate::voting_service::handling(tower, Ok(Ok(vote)), ancestors, source) == accepted
            &&& tower.stack.votes.len() >= 8 ==> crate::voting_service::udp_handling(
                tower,
                Ok(true),
                Ok(Ok(vote)),
                ancestors,
            ) == accepted
        }),
{
    crate::laws::law_descendant_is_admitted(tower, vote, ancestors, source);
    if tower.stack.votes.len() >= 8 {
        crate::laws::law_descendant_is_admitted(tower, vote, ancestors, VotingSource::Secondary);
    }
}

/// A transaction of the hot spare that is signed by the vote account, and whose first instruction
/// is a tower sync that holds a vote, comes out as its last vote does on the tower: accepted
/// exactly if the tower admits it from the hot spare.
pub proof fn law_signed_tower_sync_is_accepted_exactly_if_admitted(
    tower: TowerModel,
    transaction: TransactionModel,
    sync: TowerSyncModel,
    signer: int,
    ancestors: Set<Slot>,
)
    requires
        0 <= signer < transaction.message.header.num_required_signatures
            <= transaction.message.account_keys.len() <= 65535,
        0 < transaction.message.instructions.len() <= 65535,
        forall|i: int|
            0 <= i < transaction.message.instructions.len() ==> (
            #[trigger] transaction.message.instructions[i]).accounts.len() <= 65535
                && transaction.message.instructions[i].data.len() <= 65535,
        crate::transaction::transaction_verifies(transaction),
        crate::instruction::decoded_instruction(transaction.message.instructions[0].data) == Some(
            VoteInstructionModel::TowerSync(sync),
        ),
        sync.lockouts.len() > 0,
    ensures
        ({
            let key = transaction.message.account_keys[signer];
            let vote = ProposedVote {
                slot: sync.lockouts[sync.lockouts.len() - 1].slot,
                hash: sync.hash,
                block_id: sync.block_id,
            };
            let (verdict, judged) = crate::validator::judge(
                tower,
                vote,
                ancestors,
                VotingSource::Secondary,
            );
            let (outcome, left) = crate::voting_service::udp_outcome(
                tower,
                transaction,
                ancestors,
                key,
            );
            let accepted = Ok::<VoteOutcome, VoteFault>(VoteOutcome::Accepted { slot: vote.slot });
            if crate::validator::is_judgeable(tower, vote.slot, ancestors) {
                &&& left == judged
                &&& outcome == accepted <==> verdict is Ok
                &&& verdict matches Err(reason) ==> outcome == Ok::<VoteOutcome, VoteFault>(
                    VoteOutcome::Rejected { slot: vote.slot, error: reason },
                )
            } else {
                outcome == Err::<VoteOutcome, VoteFault>(VoteFault::RootOffFork) && left == tower
            }
        }),
{
    let key = transaction.message.account_keys[signer];
    assert(transaction.message.requires_signer(key));
}

/// A signed transaction of the hot spare whose tower sync extends the tower's fork is accepted
/// once the tower holds eight votes, however many slots it skips.
pub proof fn law_signed_tower_sync_that_extends_the_fork_is_accepted(
    tower: TowerModel,
    root: Slot,
    transaction: TransactionModel,
    sync: TowerSyncModel,
    signer: int,
    ancestors: Set<Slot>,
)
    requires
        0 <= signer < transaction.message.header.num_required_signatures
            <= transaction.message.account_keys.len() <= 65535,
        0 < transaction.message.instructions.len() <= 65535,
        forall|i: int|
            0 <= i < transaction.message.instructions.len() ==> (
            #[trigger] transaction.message.instructions[i]).accounts.len() <= 65535
                && transaction.message.instructions[i].data.len() <= 65535,
        crate::transaction::transaction_verifies(transaction),
        crate::instruction::decoded_instruction(transaction.message.instructions[0].data) == Some(
            VoteInstructionModel::TowerSync(sync),
        ),
        sync.lockouts.len() > 0,
        tower.stack.root_slot == Some(root),
        tower.stack.votes.len() >= 8,
        tower.stack.votes[tower.stack.votes.len() - 1].slot
            < sync.lockouts[sync.lockouts.len() - 1].slot,
        ancestors.contains(root),
        forall|i: int|
            0 <= i < tower.stack.votes.len() ==> ancestors.contains(
                (#[trigger] tower.stack.votes[i]).slot,
            ),
    ensures
        ({
            let slot = sync.lockouts[sync.lockouts.len() - 1].slot;
            crate::voting_service::udp_outcome(
                tower,
                transaction,
                ancestors,
                transaction.message.account_keys[signer],
            ) == (
                Ok::<VoteOutcome, VoteFault>(VoteOutcome::Accepted { slot }),
                tower.after_vote(slot, sync.hash@, sync.block_id@),
            )
        }),
{
    let vote = ProposedVote {
        slot: sync.lockouts[sync.lockouts.len() - 1].slot,
        hash: sync.hash,
        block_id: sync.block_id,
    };
    law_vote_that_extends_the_fork_is_accepted(
        tower,
        root,
        vote,
        ancestors,
        VotingSource::Secondary,
    );
    law_signed_tower_sync_is_accepted_exactly_if_admitted(
        tower,
        transaction,
        sync,
        signer,
        ancestors,
    );
    crate::laws::law_descendant_is_admitted(tower, vote, ancestors, VotingSource::Secondary);
}

/// A transaction of the hot spare is handled by whether it is signed and by what it says, and by
/// nothing else: two that agree on both come out alike.
pub proof fn law_hot_spare_transactions_alike_come_out_alike(
    tower: TowerModel,
    transaction: TransactionModel,
    other: TransactionModel,
    ancestors: Set<Slot>,
    key: Pubkey,
)
    requires
        crate::voting_service::signing(
            transaction,
            key,
            crate::transaction::transaction_verifies(transaction),
        ) == crate::voting_service::signing(
            other,
            key,
            crate::transaction::transaction_verifies(other),
        ),
        crate::voting_service::reading(transaction) == crate::voting_service::reading(other),
    ensures
        crate::voting_service::udp_outcome(tower, transaction, ancestors, key)
            == crate::voting_service::udp_outcome(tower, other, ancestors, key),
{
}

/// A transaction that lacks the signature of the vote account is passed over, one that counts more
/// signers than it has keys is a fault, and so is one that names the vote account but is too long
/// to be checked; whatever it says, the tower is left as it was.
pub proof fn law_unsigned_transaction_leaves_the_tower(
    tower: TowerModel,
    transaction: TransactionModel,
    ancestors: Set<Slot>,
    key: Pubkey,
)
    ensures
        ({
            let keys = transaction.message.account_keys;
            let count = transaction.message.header.num_required_signatures;
            let instructions = transaction.message.instructions;
            let named = exists|i: int| 0 <= i < count && #[trigger] keys[i] == key;
            let short = keys.len() <= 65535 && instructions.len() <= 65535 && forall|i: int|
                0 <= i < instructions.len() ==> (#[trigger] instructions[i]).accounts.len()
                    <= 65535 && instructions[i].data.len() <= 65535;
            let verifies = crate::transaction::transaction_verifies(transaction);
            let handled = crate::voting_service::udp_outcome(tower, transaction, ancestors, key);
            &&& count > keys.len() ==> handled == (
                Err::<VoteOutcome, VoteFault>(VoteFault::UnlistedSigners),
                tower,
            )
            &&& count <= keys.len() && !named ==> handled == (
                Ok::<VoteOutcome, VoteFault>(VoteOutcome::NotSigned),
                tower,
            )
            &&& count <= keys.len() && named && !short ==> handled == (
                Err::<VoteOutcome, VoteFault>(VoteFault::OversizedMessage),
                tower,
            )
            &&& count <= keys.len() && named && short && !verifies ==> handled == (
                Ok::<VoteOutcome, VoteFault>(VoteOutcome::NotSigned),
                tower,
            )
            &&& count <= keys.len() && named && short && verifies ==> handled
                == crate::voting_service::handling(
                tower,
                crate::voting_service::reading(transaction),
                ancestors,
                VotingSource::Secondary,
            )
        }),
{
}

/// A transaction is signed by a key exactly if the key is at one of the first positions that the
/// header counts as signers, all of which exist, no list is longer than 65535, and the signatures
/// verify.
pub proof fn law_signed_means_named_short_and_verified(
    transaction: TransactionModel,
    key: Pubkey,
    verifies: bool,
)
    ensures
        ({
            let keys = transaction.message.account_keys;
            let count = transaction.message.header.num_required_signatures;
            let instructions = transaction.message.instructions;
            let named = exists|i: int| 0 <= i < count && #[trigger] keys[i] == key;
            let short = keys.len() <= 65535 && instructions.len() <= 65535 && forall|i: int|
                0 <= i < instructions.len() ==> (#[trigger] instructions[i]).accounts.len()
                    <= 65535 && instructions[i].data.len() <= 65535;
            let signed = crate::voting_service::signing(transaction, key, verifies);
            &&& signed == Ok::<bool, VoteFault>(true) <==> count <= keys.len() && named && short
                && verifies
            &&& signed == Ok::<bool, VoteFault>(false) <==> count <= keys.len() && (!named || (short
                && !verifies))
            &&& signed == Err::<bool, VoteFault>(VoteFault::UnlistedSigners) <==> count
                > keys.len()
            &&& signed == Err::<bool, VoteFault>(VoteFault::OversizedMessage) <==> count
                <= keys.len() && named && !short
        }),
{
}

/// What is asked of a message comes down to its lists: its signers are listed if there are keys for
/// all of them, a key must sign if it is among the first so many, and the message fits the wire if
/// no list is longer than 65535.
pub proof fn law_message_is_known_by_its_lists(message: MessageModel, key: Pubkey)
    ensures
        message.signers_are_listed() <==> message.header.num_required_signatures
            <= message.account_keys.len(),
        message.header.num_required_signatures == 0 ==> !message.requires_signer(key),
        forall|i: int|
            0 <= i < message.header.num_required_signatures ==> message.requires_signer(
                #[trigger] message.account_keys[i],
            ),
        message.requires_signer(key) ==> message.account_keys.take(
            message.header.num_required_signatures as int,
        ).contains(key) || message.header.num_required_signatures > message.account_keys.len(),
        message.fits_wire() <==> {
            &&& message.account_keys.len() <= 65535
            &&& message.instructions.len() <= 65535
            &&& forall|i: int|
                0 <= i < message.instructions.len() ==> (
                #[trigger] message.instructions[i]).accounts.len() <= 65535
            &&& forall|i: int|
                0 <= i < message.instructions.len() ==> (#[trigger] message.instructions[i]).data.len()
                    <= 65535
        },
{
    let count = message.header.num_required_signatures as int;
    if message.requires_signer(key) && count <= message.account_keys.len() {
        let i = choose|i: int| 0 <= i < count && #[trigger] message.account_keys[i] == key;
        assert(message.account_keys.take(count)[i] == key);
    }
    if message.account_keys.len() <= 65535 && message.instructions.len() <= 65535 && (forall|i: int|
        0 <= i < message.instructions.len() ==> (
        #[trigger] message.instructions[i]).accounts.len() <= 65535) && (forall|i: int|
        0 <= i < message.instructions.len() ==> (#[trigger] message.instructions[i]).data.len()
            <= 65535) {
        assert(message.fits_wire());
    }
}

/// A transaction fits the wire exactly if it has at most 65535 signatures and its message fits.
pub proof fn law_transaction_fits_with_its_message(transaction: TransactionModel)
    ensures
        transaction.signatures.len() > 65535 ==> !transaction.fits_wire(),
        transaction.signatures.len() <= 65535 ==> (transaction.fits_wire()
            <==> transaction.message.fits_wire()),
{
}

/// The vote that a tower sync proposes is its last lockout's slot with the hash and the block id of
/// the sync. Where the slots rise, no lockout is for a higher slot.
pub proof fn law_tower_sync_proposes_its_last_vote(sync: TowerSyncModel)
    requires
        sync.lockouts.len() > 0,
    ensures
        ({
            let instruction = VoteInstructionModel::TowerSync(sync);
            &&& crate::instruction::holds_vote(instruction)
            &&& crate::instruction::proposed_vote(instruction) matches Ok(vote) && {
                &&& vote.slot == sync.lockouts[sync.lockouts.len() - 1].slot
                &&& vote.hash == sync.hash
                &&& vote.block_id == sync.block_id
                &&& (forall|i: int, j: int|
                    #![trigger sync.lockouts[i], sync.lockouts[j]]
                    0 <= i < j < sync.lockouts.len() ==> sync.lockouts[i].slot
                        < sync.lockouts[j].slot) ==> forall|i: int|
                    0 <= i < sync.lockouts.len() ==> (#[trigger] sync.lockouts[i]).slot
                        <= vote.slot
            }
        }),
{
    let last: int = sync.lockouts.len() - 1;
    assert forall|i: int|
        (forall|i: int, j: int|
            #![trigger sync.lockouts[i], sync.lockouts[j]]
            0 <= i < j < sync.lockouts.len() ==> sync.lockouts[i].slot < sync.lockouts[j].slot) && 0
            <= i < sync.lockouts.len() implies (#[trigger] sync.lockouts[i]).slot
        <= sync.lockouts[last].slot by {
        if i < last {
            assert(sync.lockouts[i].slot < sync.lockouts[last].slot);
        }
    }
}

/// A lockout put on top of a tower sync is the one that is proposed, whatever stands below it.
pub proof fn law_lockout_on_top_is_proposed(sync: TowerSyncModel, top: Lockout)
    ensures
        crate::instruction::proposed_vote(
            VoteInstructionModel::TowerSync(
                TowerSyncModel { lockouts: sync.lockouts.push(top), ..sync },
            ),
        ) == Ok::<ProposedVote, VoteOpError>(
            ProposedVote { slot: top.slot, hash: sync.hash, block_id: sync.block_id },
        ),
{
}

/// What a transaction says is what its first instruction says: nothing without one or if it cannot
/// be decoded, no vote if it is no tower sync or one without lockouts, and else the vote for the
/// last lockout.
pub proof fn law_first_instruction_is_read(transaction: TransactionModel)
    ensures
        ({
            let instructions = transaction.message.instructions;
            let decoded = crate::instruction::decoded_instruction(instructions[0].data);
            let read = crate::voting_service::reading(transaction);
            if instructions.len() == 0 {
                read matches Err(fault) && fault == VoteFault::NoInstruction
            } else {
                &&& decoded is None ==> (read matches Err(fault) && fault
                    == VoteFault::UndecodableInstruction)
                &&& decoded matches Some(VoteInstructionModel::Other(_)) ==> (read matches Ok(
                    Err(error),
                ) && error == VoteOpError::NotTowerSync)
                &&& decoded matches Some(VoteInstructionModel::TowerSync(sync))
                    ==> if sync.lockouts.len() == 0 {
                    read matches Err(fault) && fault == VoteFault::EmptyTowerSync
                } else {
                    read matches Ok(Ok(vote)) && vote.slot == sync.lockouts[sync.lockouts.len()
                        - 1].slot && vote.hash == sync.hash && vote.block_id == sync.block_id
                }
            }
        }),
{
}

/// An instruction can be asked for its vote unless it is a tower sync without lockouts; one that is
/// no tower sync answers that it is none.
pub proof fn law_other_instruction_proposes_nothing(instruction: VoteInstructionModel)
    ensures
        instruction is Other ==> crate::instruction::holds_vote(instruction)
            && crate::instruction::proposed_vote(instruction) == Err::<ProposedVote, VoteOpError>(
            VoteOpError::NotTowerSync,
        ),
        instruction matches VoteInstructionModel::TowerSync(sync) ==> (
        crate::instruction::holds_vote(instruction) <==> sync.lockouts.len() != 0),
{
}

/// The transaction of a vote is the one it carries, be it new or sent again.
pub proof fn law_vote_carries_its_transaction<S>(vote_op: VoteOp<S>)
    ensures
        vote_op matches VoteOp::PushVote { tx, .. } ==> vote_op.transaction() == tx,
        vote_op matches VoteOp::RefreshVote { tx, .. } ==> vote_op.transaction() == tx,
{
}

/// The tower to store is the one that comes with a new vote. A vote that is sent again brings none.
pub proof fn law_tower_to_store_comes_with_a_new_vote<S>(vote_op: VoteOp<S>)
    ensures
        vote_op matches VoteOp::PushVote { saved_tower, .. } ==> vote_op.tower_to_store()
            == saved_tower,
        vote_op is RefreshVote ==> vote_op.tower_to_store() is None,
{
}

/// An admitted vote whose tower comes with it has that tower stored first. Without one, and once
/// the tower is stored, the leaders of two coming slots are looked up. If the tower cannot be
/// stored the process ends with code 1.
pub proof fn law_tower_is_stored_before_leaders_are_found<S, A>(
    vote_op: VoteOp<S>,
    stage: DeliveryModel<A>,
    event: DeliveryEvent<A>,
    next: DeliveryModel<A>,
    action: DeliveryAction<S, A>,
)
    requires
        crate::delivery::is_step(vote_op, stage, event, next, action),
    ensures
        stage is Admitted <==> event is Admitted,
        stage is StoringTower <==> event is TowerStored,
        event is Admitted && (vote_op matches VoteOp::PushVote { saved_tower: Some(_), .. }) ==> {
            &&& next is StoringTower
            &&& action matches DeliveryAction::StoreTower { saved_tower: stored } && (
            vote_op matches VoteOp::PushVote { saved_tower: Some(tower), .. } && *stored == tower)
        },
        event is Admitted && !(vote_op matches VoteOp::PushVote { saved_tower: Some(_), .. }) ==> {
            &&& next is FindingLeaders
            &&& action matches DeliveryAction::FindLeaders { fanout_slots } && fanout_slots == 2
        },
        event matches DeliveryEvent::TowerStored { stored } ==> if stored {
            &&& next is FindingLeaders
            &&& action matches DeliveryAction::FindLeaders { fanout_slots } && fanout_slots == 2
        } else {
            &&& next is Over
            &&& action matches DeliveryAction::Exit { code } && code == 1
        },
{
}

/// Once the leaders are found the vote's own transaction goes to the first of them and the others
/// wait in their order. Without leaders it goes to the validator itself and nobody waits.
pub proof fn law_first_leader_is_sent_the_vote<S, A>(
    vote_op: VoteOp<S>,
    stage: DeliveryModel<A>,
    sockets: Vec<A>,
    next: DeliveryModel<A>,
    action: DeliveryAction<S, A>,
)
    requires
        crate::delivery::is_step(
            vote_op,
            stage,
            DeliveryEvent::LeadersFound { sockets },
            next,
            action,
        ),
    ensures
        stage is FindingLeaders,
        action matches DeliveryAction::Send { tpu, tx } && {
            &&& vote_op matches VoteOp::PushVote { tx: own, .. } ==> *tx == own
            &&& vote_op matches VoteOp::RefreshVote { tx: own, .. } ==> *tx == own
            &&& sockets@.len() == 0 ==> tpu is None
            &&& sockets@.len() > 0 ==> tpu == Some(sockets@[0])
        },
        next matches DeliveryModel::Sending { waiting } && {
            &&& sockets@.len() == 0 ==> waiting.len() == 0
            &&& sockets@.len() > 0 ==> waiting.len() == sockets@.len() - 1
            &&& forall|i: int| 0 <= i < waiting.len() ==> #[trigger] waiting[i] == Some(
                sockets@[i + 1],
            )
        },
{
    crate::laws::law_vote_goes_to_every_leader(sockets@);
}

/// After a send, delivered or not, the vote's own transaction goes to whoever waits longest. Once
/// nobody waits the vote is published: a new vote as a new vote, with its own tower slots and
/// transaction, and a vote that is sent again as such, with its own transaction and slot.
pub proof fn law_next_in_line_is_sent_the_vote<S, A>(
    vote_op: VoteOp<S>,
    waiting: Seq<Option<A>>,
    event: DeliveryEvent<A>,
    next: DeliveryModel<A>,
    action: DeliveryAction<S, A>,
)
    requires
        crate::delivery::is_step(
            vote_op,
            DeliveryModel::Sending { waiting },
            event,
            next,
            action,
        ),
    ensures
        event is Sent,
        waiting.len() > 0 ==> {
            &&& action matches DeliveryAction::Send { tpu, tx } && {
                &&& tpu == waiting[0]
                &&& vote_op matches VoteOp::PushVote { tx: own, .. } ==> *tx == own
                &&& vote_op matches VoteOp::RefreshVote { tx: own, .. } ==> *tx == own
            }
            &&& next matches DeliveryModel::Sending { waiting: rest } && {
                &&& rest.len() == waiting.len() - 1
                &&& forall|i: int| 0 <= i < rest.len() ==> #[trigger] rest[i] == waiting[i + 1]
            }
        },
        waiting.len() == 0 ==> action is Publish && next is Over,
{
}

/// What is published is the vote itself. It is published as a new vote exactly if it is one, with
/// its own tower slots and transaction, and as a vote that is sent again exactly if it is that,
/// with its own transaction and slot.
pub proof fn law_publication_is_of_the_votes_own_kind<S, A>(
    vote_op: VoteOp<S>,
    stage: DeliveryModel<A>,
    event: DeliveryEvent<A>,
    next: DeliveryModel<A>,
    action: DeliveryAction<S, A>,
)
    requires
        crate::delivery::is_step(vote_op, stage, event, next, action),
        action is Publish,
    ensures
        action->publication is PushVote <==> vote_op is PushVote,
        action->publication is RefreshVote <==> vote_op is RefreshVote,
        vote_op matches VoteOp::PushVote { tx, tower_slots, .. } ==> (
        action->publication matches Publication::PushVote { tower_slots: slots, tx: published }
            && *slots == tower_slots && *published == tx),
        vote_op matches VoteOp::RefreshVote { tx, last_voted_slot } ==> (
        action->publication matches Publication::RefreshVote { tx: published, last_voted_slot: slot }
            && *published == tx && slot == last_voted_slot),
{
}

/// Each stage of a delivery waits for the answer to its own action, and a delivery that is over
/// waits for nothing.
pub proof fn law_each_stage_waits_for_its_answer<A>(
    stage: DeliveryModel<A>,
    event: DeliveryEvent<A>,
)
    ensures
        stage.awaits(event) <==> {
            ||| stage is Admitted && event is Admitted
            ||| stage is StoringTower && event is TowerStored
            ||| stage is FindingLeaders && event is LeadersFound
            ||| stage is Sending && event is Sent
        },
{
}

/// The stage of a delivery, as it is spoken of, is the stage it is at, with those who wait in
/// their order.
pub proof fn law_stage_is_seen_as_it_is<A>(stage: DeliveryStage<A>)
    ensures
        stage is Admitted <==> stage@ is Admitted,
        stage is StoringTower <==> stage@ is StoringTower,
        stage is FindingLeaders <==> stage@ is FindingLeaders,
        stage is Over <==> stage@ is Over,
        stage is Sending <==> stage@ is Sending,
        stage matches DeliveryStage::Sending { waiting } ==> stage@->waiting == waiting@,
{
}

/// A tower, as it is spoken of, is what its fields hold: the votes from the oldest to the newest,
/// the root, and the last vote.
pub proof fn law_tower_is_seen_as_it_is(tower: Tower)
    ensures
        tower@.stack.votes == tower.vote_state.votes@,
        tower@.stack.root_slot == tower.vote_state.root_slot,
        tower.vote_state@ == tower@.stack,
        tower@.last_vote == tower.last_vote@,
        tower.last_vote@.lockouts == tower.last_vote.lockouts@,
        tower.last_vote@.root == tower.last_vote.root,
        tower.last_vote@.hash == tower.last_vote.hash@,
        tower.last_vote@.block_id == tower.last_vote.block_id@,
{
}

/// The state of a validator is that of its tower.
pub proof fn law_validator_is_seen_as_its_tower(validator: TowerVoteValidator)
    ensures
        validator@ == validator.tower@,
        validator@.stack.votes == validator.tower.vote_state.votes@,
        validator@.stack.root_slot == validator.tower.vote_state.root_slot,
{
}

/// A transaction, as it is spoken of, is what its fields hold, with every list in its order.
pub proof fn law_transaction_is_seen_as_it_is(transaction: Transaction)
    ensures
        transaction@.signatures == transaction.signatures@,
        transaction@.message.header == transaction.message.header,
        transaction@.message.account_keys == transaction.message.account_keys@,
        transaction@.message.recent_blockhash == transaction.message.recent_blockhash,
        transaction@.message == transaction.message@,
        transaction@.message.instructions.len() == transaction.message.instructions@.len(),
        forall|i: int|
            0 <= i < transaction.message.instructions@.len() ==> {
                let seen = #[trigger] transaction@.message.instructions[i];
                let held = transaction.message.instructions@[i];
                &&& seen.program_id_index == held.program_id_index
                &&& seen.accounts == held.accounts@
                &&& seen.data == held.data@
            },
{
}

/// An instruction, as it is spoken of, is what it holds.
pub proof fn law_instruction_is_seen_as_it_is(instruction: VoteInstruction)
    ensures
        instruction matches VoteInstruction::TowerSync(sync) ==> (
        instruction@ matches VoteInstructionModel::TowerSync(seen) && {
            &&& seen.lockouts == sync.lockouts@
            &&& seen.root == sync.root
            &&& seen.hash == sync.hash
            &&& seen.timestamp == sync.timestamp
            &&& seen.block_id == sync.block_id
        }),
        instruction matches VoteInstruction::Other(other) ==> (
        instruction@ matches VoteInstructionModel::Other(seen) && seen == other),
{
}

/// A fresh tower stands on slot 0 without votes, and its last vote is empty, without a root, and
/// for hashes of thirty-two zero bytes.
pub proof fn law_fresh_tower_is_empty_on_slot_zero()
    ensures
        TowerModel::fresh().stack.votes.len() == 0,
        TowerModel::fresh().stack.root_slot == Some(0u64),
        TowerModel::fresh().last_vote.lockouts.len() == 0,
        TowerModel::fresh().last_vote.root is None,
        TowerModel::fresh().last_vote.hash.len() == 32,
        TowerModel::fresh().last_vote.block_id.len() == 32,
        forall|i: int|
            0 <= i < 32 ==> #[trigger] TowerModel::fresh().last_vote.hash[i] == 0
                && TowerModel::fresh().last_vote.block_id[i] == 0,
{
}

/// Putting a tower on a root leaves its votes and its last vote; taking its votes leaves its root
/// and its last vote; and a vote makes what it leaves of the stack the last vote, with the hash
/// and the block id of the vote.
pub proof fn law_tower_changes_only_where_it_should(
    tower: TowerModel,
    slot: Slot,
    hash: Seq<u8>,
    block_id: Seq<u8>,
)
    ensures
        tower.stack.root_slot matches Some(root) ==> tower.root() == root,
        tower.with_root(slot).stack.root_slot == Some(slot),
        tower.with_root(slot).stack.votes == tower.stack.votes,
        tower.with_root(slot).last_vote == tower.last_vote,
        tower.without_votes().stack.votes.len() == 0,
        tower.without_votes().stack.root_slot == tower.stack.root_slot,
        tower.without_votes().last_vote == tower.last_vote,
        tower.after_vote(slot, hash, block_id).stack == tower.stack.after_vote(slot),
        tower.after_vote(slot, hash, block_id).last_vote == (LastVoteModel {
            lockouts: tower.stack.after_vote(slot).votes,
            root: tower.stack.after_vote(slot).root_slot,
            hash,
            block_id,
        }),
{
}

/// The slot last voted for is that of the newest vote, and a slot was voted at or after exactly if
/// it is not newer than that.
pub proof fn law_last_voted_slot_is_the_newest_votes(stack: VoteStack, slot: Slot)
    ensures
        stack.votes.len() == 0 ==> stack.last_voted_slot() is None && !stack.voted_at_or_after(
            slot,
        ),
        stack.votes.len() > 0 ==> stack.last_voted_slot() == Some(
            stack.votes[stack.votes.len() - 1].slot,
        ),
        stack.votes.len() > 0 ==> (stack.voted_at_or_after(slot) <==> slot
            <= stack.votes[stack.votes.len() - 1].slot),
{
}

/// A sound tower stands on a root and holds at most 31 votes, with slots that rise, confirmations
/// that fall, and for each vote at least one confirmation per vote from it to the top and at most
/// 31.
pub proof fn law_sound_tower_is_in_order(tower: TowerModel, i: int, j: int)
    requires
        tower.is_sound(),
        0 <= i < j < tower.stack.votes.len(),
    ensures
        tower.stack.root_slot is Some,
        tower.stack.votes.len() <= 31,
        tower.stack.votes[i].slot < tower.stack.votes[j].slot,
        tower.stack.votes[i].confirmation_count > tower.stack.votes[j].confirmation_count,
        tower.stack.votes.len() - i <= tower.stack.votes[i].confirmation_count <= 31,
        tower.stack.votes.len() - j <= tower.stack.votes[j].confirmation_count <= 31,
{
}

} // verus!
