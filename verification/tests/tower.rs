use hot_spare_vote::lockout::{Lockout, MAX_LOCKOUT_HISTORY};
use hot_spare_vote::tower::Tower;
use hot_spare_vote::vote_state::TowerVoteState;
use std::collections::HashSet;

fn slots_and_counts(state: &TowerVoteState) -> Vec<(u64, u32)> {
    state.votes.iter().map(|v| (v.slot(), v.confirmation_count())).collect()
}

fn set(slots: &[u64]) -> HashSet<u64> {
    slots.iter().copied().collect()
}

#[test]
fn lockout_doubles_with_each_confirmation() {
    assert_eq!(Lockout::new(5).lockout(), 2);
    assert_eq!(Lockout::new_with_confirmation_count(5, 0).lockout(), 1);
    assert_eq!(Lockout::new_with_confirmation_count(5, 10).lockout(), 1024);
    assert_eq!(Lockout::new_with_confirmation_count(5, 31).lockout(), 1 << 31);
    assert_eq!(Lockout::new_with_confirmation_count(5, 32).lockout(), 1 << 31);
    assert_eq!(Lockout::new_with_confirmation_count(5, u32::MAX).lockout(), 1 << 31);
}

#[test]
fn lockout_ends_after_its_span() {
    let vote = Lockout::new(5);
    assert_eq!(vote.last_locked_out_slot(), 7);
    assert!(vote.is_locked_out_at_slot(7));
    assert!(!vote.is_locked_out_at_slot(8));
    let late = Lockout::new(u64::MAX - 1);
    assert_eq!(late.last_locked_out_slot(), u64::MAX);
    assert!(late.is_locked_out_at_slot(u64::MAX));
}

#[test]
fn confirmations_stop_at_the_limit() {
    let mut vote = Lockout::new_with_confirmation_count(5, u32::MAX - 1);
    vote.increase_confirmation_count(5);
    assert_eq!(vote, Lockout::new_with_confirmation_count(5, u32::MAX));
}

#[test]
fn lockout_agrees_with_the_vote_program() {
    for slot in [0, 1, 77, u64::MAX - 3, u64::MAX] {
        for count in [0, 1, 2, 7, 30, 31, 32, 1000] {
            let ours = Lockout::new_with_confirmation_count(slot, count);
            let theirs = solana_vote_program::vote_state::Lockout::new_with_confirmation_count(
                slot, count,
            );
            assert_eq!(ours.lockout(), theirs.lockout());
            assert_eq!(ours.last_locked_out_slot(), theirs.last_locked_out_slot());
            for at in [0, slot, slot.saturating_add(2), slot.saturating_add(129), u64::MAX] {
                assert_eq!(ours.is_locked_out_at_slot(at), theirs.is_locked_out_at_slot(at));
            }
        }
    }
}

#[test]
fn consecutive_votes_gather_confirmations() {
    let mut state = TowerVoteState::default();
    for slot in 1..=3 {
        state.process_next_vote_slot(slot);
    }
    assert_eq!(slots_and_counts(&state), vec![(1, 3), (2, 2), (3, 1)]);
    assert_eq!(state.last_voted_slot(), Some(3));
    assert_eq!(state.root_slot, None);
}

#[test]
fn expired_votes_leave_from_the_top() {
    let mut state = TowerVoteState::default();
    for slot in 1..=3 {
        state.process_next_vote_slot(slot);
    }
    // Vote 1 binds up to 9, vote 2 up to 6, vote 3 up to 5.
    state.process_next_vote_slot(7);
    assert_eq!(slots_and_counts(&state), vec![(1, 3), (7, 1)]);
}

#[test]
fn old_slot_changes_nothing() {
    let mut state = TowerVoteState::default();
    state.process_next_vote_slot(5);
    state.process_next_vote_slot(5);
    state.process_next_vote_slot(4);
    assert_eq!(slots_and_counts(&state), vec![(5, 1)]);
}

#[test]
fn full_stack_roots_its_oldest_vote() {
    let mut state = TowerVoteState::default();
    for slot in 1..=31 {
        state.process_next_vote_slot(slot);
    }
    assert_eq!(state.votes.len(), MAX_LOCKOUT_HISTORY);
    assert_eq!(state.root_slot, None);
    assert_eq!(state.votes[0].lockout(), 1 << 31);
    state.process_next_vote_slot(32);
    assert_eq!(state.votes.len(), MAX_LOCKOUT_HISTORY);
    assert_eq!(state.root_slot, Some(1));
    assert_eq!(state.votes[0].slot(), 2);
}

#[test]
fn stack_agrees_with_the_vote_program() {
    #[allow(deprecated)]
    let mut theirs = solana_vote_program::vote_state::VoteState::default();
    let mut ours = TowerVoteState::default();
    let mut seed: u64 = 7;
    let mut slot: u64 = 0;
    for step in 0..2000 {
        seed = seed.wrapping_mul(6364136223846793005).wrapping_add(1442695040888963407);
        let gap = if step % 97 == 0 { (seed >> 33) % 5000 } else { (seed >> 33) % 4 };
        slot += gap;
        ours.process_next_vote_slot(slot);
        theirs.process_next_vote_slot(slot, 0, 0);
        let expected: Vec<(u64, u32)> =
            theirs.votes.iter().map(|v| (v.slot(), v.confirmation_count())).collect();
        assert_eq!(slots_and_counts(&ours), expected);
        assert_eq!(ours.root_slot, theirs.root_slot);
        // Slots rise, confirmations fall, and the stack is bounded; lockouts double with depth.
        assert!(ours.votes.len() <= MAX_LOCKOUT_HISTORY);
        for i in 0..ours.votes.len() {
            assert!(ours.votes[i].lockout() >= 1 << (ours.votes.len() - i));
        }
        for i in 1..ours.votes.len() {
            assert!(ours.votes[i - 1].slot() < ours.votes[i].slot());
            assert!(ours.votes[i - 1].confirmation_count() > ours.votes[i].confirmation_count());
        }
    }
}

#[test]
fn stack_clone_is_independent() {
    let mut state = TowerVoteState::default();
    state.process_next_vote_slot(1);
    let mut copy = state.clone();
    copy.process_next_vote_slot(2);
    assert_eq!(slots_and_counts(&state), vec![(1, 1)]);
    assert_eq!(slots_and_counts(&copy), vec![(1, 2), (2, 1)]);
}

#[test]
fn fresh_tower_stands_on_slot_zero() {
    let tower = Tower::default();
    assert_eq!(tower.root(), 0);
    assert_eq!(tower.vote_state.last_voted_slot(), None);
    assert!(tower.vote_state.last_lockout().is_none());
    assert!(tower.last_vote.lockouts.is_empty());
    assert_eq!(tower.last_vote.root, None);
    assert_eq!(tower.last_vote.hash, [0; 32]);
    assert_eq!(tower.last_vote.block_id, [0; 32]);
}

#[test]
fn recent_means_newer_than_vote_or_root() {
    let mut tower = Tower::default();
    tower.initialize_root(4);
    assert!(!tower.is_recent(4));
    assert!(tower.is_recent(5));
    tower.vote_state.process_next_vote_slot(9);
    assert!(!tower.is_recent(9));
    assert!(tower.is_recent(10));
    tower.vote_state.votes.clear();
    tower.vote_state.root_slot = None;
    assert!(tower.is_recent(0));
}

#[test]
fn binding_vote_on_another_fork_locks_out() {
    let mut tower = Tower::default();
    tower.vote_state.process_next_vote_slot(2);
    // Vote 2 binds up to slot 4.
    assert!(tower.is_locked_out(4, &set(&[0, 1])));
    assert!(!tower.is_locked_out(4, &set(&[0, 2])));
    assert!(!tower.is_locked_out(5, &set(&[0, 1])));
    assert!(tower.is_locked_out(2, &set(&[0, 1])));
}

#[test]
fn lockout_is_undecided_if_the_root_leaves_the_fork() {
    let mut tower = Tower::default();
    for slot in 1..=31 {
        tower.vote_state.process_next_vote_slot(slot);
    }
    let all: Vec<u64> = (0..=31).collect();
    assert!(tower.lockout_is_decided(32, &set(&all)));
    let without_one: Vec<u64> = (0..=31).filter(|s| *s != 1).collect();
    assert!(!tower.lockout_is_decided(32, &set(&without_one)));
    let without_two: Vec<u64> = (0..=31).filter(|s| *s != 2).collect();
    assert!(tower.lockout_is_decided(32, &set(&without_two)));
    assert!(tower.is_locked_out(32, &set(&without_two)));
    assert!(tower.lockout_is_decided(31, &set(&[])));
}

#[test]
fn last_vote_mirrors_the_stack() {
    let mut tower = Tower::default();
    tower.initialize_root(3);
    tower.vote_state.process_next_vote_slot(5);
    tower.vote_state.process_next_vote_slot(6);
    tower.update_last_vote_from_vote_state([7; 32], [8; 32]);
    assert_eq!(
        tower.last_vote.lockouts,
        vec![
            Lockout::new_with_confirmation_count(5, 2),
            Lockout::new_with_confirmation_count(6, 1)
        ]
    );
    assert_eq!(tower.last_vote.root, Some(3));
    assert_eq!(tower.last_vote.hash, [7; 32]);
    assert_eq!(tower.last_vote.block_id, [8; 32]);
}
