use hot_spare_vote::validator::{
    highest_ancestor_below, ProposedVote, TowerVoteValidator, VoteValidatorError, VotingSource,
    VOTE_THRESHOLD_DEPTH,
};
use std::collections::HashSet;

fn vote(slot: u64) -> ProposedVote {
    ProposedVote { slot, hash: [slot as u8; 32], block_id: [slot as u8 + 1; 32] }
}

fn set(slots: &[u64]) -> HashSet<u64> {
    slots.iter().copied().collect()
}

fn upto(slot: u64) -> HashSet<u64> {
    (0..slot).collect()
}

fn voted_slots(validator: &TowerVoteValidator) -> Vec<u64> {
    validator.tower().vote_state.votes.iter().map(|v| v.slot()).collect()
}

/// A validator with own votes for slots 1 to `last`, on root 0.
fn voted(last: u64) -> TowerVoteValidator {
    let mut validator = TowerVoteValidator::new();
    for slot in 1..=last {
        assert_eq!(validator.try_add_vote(&vote(slot), &upto(slot), VotingSource::Primary), Ok(()));
    }
    validator
}

#[test]
fn new_validator_is_not_bootstrapped() {
    let validator = TowerVoteValidator::new();
    assert!(!validator.is_bootstrapped());
    assert_eq!(validator.tower().root(), 0);
    assert!(voted_slots(&validator).is_empty());
}

#[test]
fn eight_votes_bootstrap() {
    assert_eq!(VOTE_THRESHOLD_DEPTH, 8);
    assert!(!voted(7).is_bootstrapped());
    assert!(voted(8).is_bootstrapped());
}

#[test]
fn hot_spare_waits_until_bootstrapped() {
    let mut validator = voted(7);
    assert_eq!(
        validator.try_add_vote(&vote(8), &upto(8), VotingSource::Secondary),
        Err(VoteValidatorError::Bootstrapping)
    );
    assert_eq!(voted_slots(&validator), vec![1, 2, 3, 4, 5, 6, 7]);
    assert_eq!(validator.try_add_vote(&vote(8), &upto(8), VotingSource::Primary), Ok(()));
    assert_eq!(validator.try_add_vote(&vote(9), &upto(9), VotingSource::Secondary), Ok(()));
}

#[test]
fn age_is_judged_before_bootstrap() {
    let mut validator = voted(1);
    assert_eq!(
        validator.try_add_vote(&vote(1), &upto(1), VotingSource::Secondary),
        Err(VoteValidatorError::VoteTooOld {
            attempted_slot: 1,
            last_voted_slot: Some(1),
            root_slot: 0
        })
    );
}

#[test]
fn first_admitted_vote_wins() {
    let mut validator = voted(10);
    assert_eq!(validator.try_add_vote(&vote(12), &upto(12), VotingSource::Secondary), Ok(()));
    let error = |slot| {
        Err(VoteValidatorError::VoteTooOld {
            attempted_slot: slot,
            last_voted_slot: Some(12),
            root_slot: 0,
        })
    };
    assert_eq!(validator.try_add_vote(&vote(12), &upto(12), VotingSource::Primary), error(12));
    assert_eq!(validator.try_add_vote(&vote(11), &upto(11), VotingSource::Primary), error(11));
    assert_eq!(validator.try_add_vote(&vote(12), &set(&[]), VotingSource::Secondary), error(12));
    assert_eq!(validator.tower().last_vote.hash, [12; 32]);
}

#[test]
fn admitted_slots_rise() {
    let mut validator = voted(8);
    let mut admitted = Vec::new();
    let proposals = [
        (9, VotingSource::Secondary),
        (9, VotingSource::Primary),
        (11, VotingSource::Primary),
        (10, VotingSource::Secondary),
        (12, VotingSource::Secondary),
        (12, VotingSource::Primary),
        (13, VotingSource::Primary),
    ];
    for (slot, source) in proposals {
        if validator.try_add_vote(&vote(slot), &upto(slot), source).is_ok() {
            admitted.push(slot);
        }
    }
    assert_eq!(admitted, vec![9, 11, 12, 13]);
}

#[test]
fn source_is_irrelevant_once_bootstrapped() {
    for (slot, ancestors) in [(9, upto(9)), (9, set(&[0])), (8, upto(8)), (20, set(&[5]))] {
        let mut first = voted(8);
        let mut second = voted(8);
        assert_eq!(
            first.try_add_vote(&vote(slot), &ancestors, VotingSource::Primary),
            second.try_add_vote(&vote(slot), &ancestors, VotingSource::Secondary)
        );
        assert_eq!(voted_slots(&first), voted_slots(&second));
        assert_eq!(first.tower().root(), second.tower().root());
    }
}

#[test]
fn descendant_is_admitted() {
    let mut validator = voted(8);
    assert_eq!(validator.try_add_vote(&vote(100), &upto(100), VotingSource::Secondary), Ok(()));
    assert_eq!(validator.tower().vote_state.last_voted_slot(), Some(100));
    assert_eq!(validator.tower().last_vote.hash, [100; 32]);
    assert_eq!(validator.tower().last_vote.block_id, [101; 32]);
}

#[test]
fn other_fork_is_locked_out() {
    let mut validator = voted(3);
    assert_eq!(
        validator.try_add_vote(&vote(4), &set(&[0, 1]), VotingSource::Primary),
        Err(VoteValidatorError::LockedOut(4))
    );
    assert_eq!(voted_slots(&validator), vec![1, 2, 3]);
    assert_eq!(validator.tower().root(), 0);
    // At slot 7 only the vote for slot 1 still binds.
    assert_eq!(validator.try_add_vote(&vote(7), &set(&[0, 1]), VotingSource::Primary), Ok(()));
    assert_eq!(voted_slots(&validator), vec![1, 7]);
}

#[test]
fn bootstrapped_tower_locks_out_too() {
    let mut validator = voted(9);
    assert_eq!(
        validator.try_add_vote(&vote(10), &set(&[0, 1]), VotingSource::Secondary),
        Err(VoteValidatorError::LockedOut(10))
    );
}

#[test]
fn initial_root_is_aligned_to_highest_ancestor() {
    let mut validator = TowerVoteValidator::new();
    assert_eq!(
        validator.try_add_vote(&vote(100), &set(&[90, 95, 120]), VotingSource::Primary),
        Ok(())
    );
    assert_eq!(validator.tower().root(), 95);
    assert_eq!(voted_slots(&validator), vec![100]);
    assert_eq!(validator.tower().last_vote.root, Some(95));
}

#[test]
fn alignment_stays_when_the_vote_is_turned_down() {
    let mut validator = voted(3);
    assert_eq!(
        validator.try_add_vote(&vote(5), &set(&[4]), VotingSource::Primary),
        Err(VoteValidatorError::LockedOut(5))
    );
    assert_eq!(validator.tower().root(), 4);
    assert_eq!(voted_slots(&validator), vec![1, 2, 3]);
}

#[test]
fn initial_root_without_candidate_mismatches() {
    let mut validator = TowerVoteValidator::new();
    assert_eq!(
        validator.try_add_vote(&vote(5), &set(&[6, 7]), VotingSource::Primary),
        Err(VoteValidatorError::RootMismatch { vote_slot: 5, tower_root: 0 })
    );
    assert_eq!(validator.tower().root(), 0);
}

#[test]
fn slot_zero_is_inconsistent_with_root_zero() {
    let error = Err(VoteValidatorError::BootstrapVoteInconsistent {
        attempted_slot: 0,
        last_voted_slot: None,
        root_slot: Some(0),
    });
    let mut validator = TowerVoteValidator::new();
    assert_eq!(validator.try_add_vote(&vote(0), &set(&[]), VotingSource::Primary), error);
    assert_eq!(validator.try_add_vote(&vote(0), &set(&[0]), VotingSource::Primary), error);
}

#[test]
fn slot_below_known_root_is_inconsistent() {
    let mut validator = TowerVoteValidator::new();
    validator.tower_mut().initialize_root(10);
    assert_eq!(
        validator.try_add_vote(&vote(10), &set(&[]), VotingSource::Primary),
        Err(VoteValidatorError::BootstrapVoteInconsistent {
            attempted_slot: 10,
            last_voted_slot: None,
            root_slot: Some(10),
        })
    );
}

#[test]
fn stale_root_starts_over() {
    let mut validator = voted(10);
    validator.tower_mut().initialize_root(1);
    assert_eq!(validator.try_add_vote(&vote(11), &set(&[7, 9]), VotingSource::Secondary), Ok(()));
    assert_eq!(validator.tower().root(), 9);
    assert_eq!(voted_slots(&validator), vec![11]);
    assert!(!validator.is_bootstrapped());
}

#[test]
fn stale_root_without_candidate_mismatches() {
    let mut validator = voted(10);
    validator.tower_mut().initialize_root(1);
    assert_eq!(
        validator.try_add_vote(&vote(11), &set(&[12]), VotingSource::Primary),
        Err(VoteValidatorError::RootMismatch { vote_slot: 11, tower_root: 1 })
    );
    assert_eq!(voted_slots(&validator).len(), 10);
}

#[test]
fn advancing_root_off_the_fork_mismatches() {
    let mut validator = voted(32);
    assert_eq!(validator.tower().root(), 1);
    // A vote for slot 33 would make slot 2 the root.
    let ancestors: HashSet<u64> = (0..33).filter(|s| *s != 2).collect();
    assert_eq!(
        validator.try_add_vote(&vote(33), &ancestors, VotingSource::Secondary),
        Err(VoteValidatorError::RootMismatch { vote_slot: 33, tower_root: 2 })
    );
    assert_eq!(validator.tower().root(), 1);
    assert_eq!(validator.try_add_vote(&vote(33), &upto(33), VotingSource::Secondary), Ok(()));
    assert_eq!(validator.tower().root(), 2);
}

#[test]
fn judgeable_unless_root_zero_advances_off_the_fork() {
    let validator = voted(31);
    assert_eq!(validator.tower().root(), 0);
    assert!(validator.can_judge(32, &upto(32)));
    let ancestors: HashSet<u64> = (0..32).filter(|s| *s != 1).collect();
    assert!(!validator.can_judge(32, &ancestors));
    assert!(validator.can_judge(31, &ancestors));
}

#[test]
fn admitted_tower_is_on_one_fork() {
    let mut validator = voted(12);
    let ancestors = set(&[0, 1, 2, 3, 4, 5, 6, 40]);
    assert_eq!(validator.try_add_vote(&vote(300), &ancestors, VotingSource::Secondary), Ok(()));
    for slot in voted_slots(&validator) {
        assert!(slot == 300 || ancestors.contains(&slot));
    }
    assert!(ancestors.contains(&validator.tower().root()));
}

#[test]
fn highest_ancestor_is_below_the_slot() {
    assert_eq!(highest_ancestor_below(&set(&[3, 9, 4, 12]), 10), Some(9));
    assert_eq!(highest_ancestor_below(&set(&[10, 11]), 10), None);
    assert_eq!(highest_ancestor_below(&set(&[]), 10), None);
    assert_eq!(highest_ancestor_below(&set(&[0]), 1), Some(0));
    assert_eq!(highest_ancestor_below(&set(&[0]), 0), None);
}

#[test]
fn reset_gives_a_fresh_tower() {
    let mut validator = voted(32);
    validator.reset();
    assert!(!validator.is_bootstrapped());
    assert_eq!(validator.tower().root(), 0);
    assert!(voted_slots(&validator).is_empty());
    assert_eq!(validator.tower().last_vote.hash, [0; 32]);
    assert_eq!(validator.try_add_vote(&vote(1), &upto(1), VotingSource::Primary), Ok(()));
}

#[test]
fn only_ancestors_below_the_slot_decide() {
    for (slot, below) in [(9, vec![0, 1, 2, 3, 4, 5, 6, 7, 8]), (9, vec![0, 1]), (9, vec![4])] {
        let mut first = voted(8);
        let mut second = voted(8);
        let mut more = below.clone();
        more.extend([9, 10, 500]);
        let other = ProposedVote { slot, hash: [200; 32], block_id: [201; 32] };
        assert_eq!(
            first.try_add_vote(&vote(slot), &set(&below), VotingSource::Secondary),
            second.try_add_vote(&other, &set(&more), VotingSource::Secondary)
        );
        assert_eq!(voted_slots(&first), voted_slots(&second));
        assert_eq!(first.tower().root(), second.tower().root());
    }
}
