use hot_spare_vote::delivery::{
    send_vote_transaction, DeliveryAction, DeliveryEvent, DeliveryStage, Publication, SendVoteError,
};
use hot_spare_vote::instruction::{VoteInstruction, VoteOpError};
use hot_spare_vote::lockout::Lockout;
use hot_spare_vote::transaction::{CompiledInstruction, Message, MessageHeader, Transaction};
use hot_spare_vote::validator::{ProposedVote, VoteValidatorError, VotingSource};
use hot_spare_vote::vote_op::{VoteOp, VoteOpWithAncestors};
use hot_spare_vote::voting_service::{
    VoteFault, VoteOutcome, VotingService, UPCOMING_LEADER_FANOUT_SLOTS,
};
use solana_keypair::Keypair;
use solana_signer::Signer;
use std::collections::HashSet;

type OutsideInstruction = solana_vote_program::vote_instruction::VoteInstruction;
type OutsideTowerSync = solana_vote_program::vote_state::TowerSync;

fn keypair() -> Keypair {
    let seed = [9u8; 32];
    solana_keypair::keypair_from_seed(&seed).unwrap()
}

fn tower_sync_data(slots: Vec<(u64, u32)>) -> Vec<u8> {
    let mut sync = OutsideTowerSync::from(slots);
    sync.root = Some(1);
    sync.hash = [3; 32].into();
    sync.block_id = [4; 32].into();
    sync.timestamp = Some(55);
    bincode::serialize(&OutsideInstruction::TowerSync(sync)).unwrap()
}

fn outside(tx: &Transaction) -> solana_transaction::Transaction {
    solana_transaction::Transaction {
        signatures: tx.signatures.iter().map(|s| (*s).into()).collect(),
        message: solana_sdk::message::Message {
            header: solana_sdk::message::MessageHeader {
                num_required_signatures: tx.message.header.num_required_signatures,
                num_readonly_signed_accounts: tx.message.header.num_readonly_signed_accounts,
                num_readonly_unsigned_accounts: tx.message.header.num_readonly_unsigned_accounts,
            },
            account_keys: tx.message.account_keys.iter().map(|k| (*k).into()).collect(),
            recent_blockhash: tx.message.recent_blockhash.into(),
            instructions: tx
                .message
                .instructions
                .iter()
                .map(|i| solana_sdk::instruction::CompiledInstruction {
                    program_id_index: i.program_id_index,
                    accounts: i.accounts.clone(),
                    data: i.data.clone(),
                })
                .collect(),
        },
    }
}

/// A vote transaction with the given instruction data, signed by the vote account.
fn signed_tx(data: Vec<u8>) -> Transaction {
    let mut tx = Transaction {
        signatures: vec![],
        message: Message {
            header: MessageHeader {
                num_required_signatures: 1,
                num_readonly_signed_accounts: 0,
                num_readonly_unsigned_accounts: 1,
            },
            account_keys: vec![keypair().pubkey().to_bytes(), [1; 32], [2; 32]],
            recent_blockhash: [5; 32],
            instructions: vec![CompiledInstruction {
                program_id_index: 2,
                accounts: vec![1, 0],
                data,
            }],
        },
    };
    let signature = keypair().sign_message(&outside(&tx).message_data());
    tx.signatures.push(signature.into());
    tx
}

fn refresh(tx: Transaction) -> VoteOp<u8> {
    VoteOp::RefreshVote { tx, last_voted_slot: 77 }
}

fn upto(slot: u64) -> HashSet<u64> {
    (0..slot).collect()
}

fn vote_for(slot: u64) -> VoteOp<u8> {
    refresh(signed_tx(tower_sync_data(vec![(slot - 1, 2), (slot, 1)])))
}

fn request(vote_op: VoteOp<u8>, ancestors: HashSet<u64>) -> VoteOpWithAncestors<u8> {
    VoteOpWithAncestors { vote_op, ancestors }
}

/// A service that has taken the validator's own votes for slots 2 to `last`.
fn service(last: u64) -> VotingService {
    let mut service = VotingService::new(keypair().pubkey().to_bytes());
    for slot in 2..=last {
        assert_eq!(
            service.handle_vote_op(&vote_for(slot), &upto(slot), VotingSource::Primary),
            Ok(VoteOutcome::Accepted { slot })
        );
    }
    service
}

fn depth(service: &VotingService) -> usize {
    service.tower_vote_validator.tower().vote_state.votes.len()
}

#[test]
fn fanout_is_that_of_the_cluster() {
    assert_eq!(UPCOMING_LEADER_FANOUT_SLOTS, 2);
    assert_eq!(
        UPCOMING_LEADER_FANOUT_SLOTS,
        solana_sdk::clock::FORWARD_TRANSACTIONS_TO_LEADER_AT_SLOT_OFFSET
    );
}

#[test]
fn transaction_is_that_of_either_kind_of_vote() {
    let tx = signed_tx(vec![1]);
    assert_eq!(refresh(tx.clone()).tx(), &tx);
    let push: VoteOp<u8> =
        VoteOp::PushVote { tx: tx.clone(), tower_slots: vec![1], saved_tower: None };
    assert_eq!(push.tx(), &tx);
}

#[test]
fn tower_sync_is_decoded() {
    let data = tower_sync_data(vec![(5, 2), (9, 1)]);
    match VotingService::deserialize_vote_ix(&data) {
        Ok(VoteInstruction::TowerSync(sync)) => {
            assert_eq!(
                sync.lockouts,
                vec![
                    Lockout::new_with_confirmation_count(5, 2),
                    Lockout::new_with_confirmation_count(9, 1)
                ]
            );
            assert_eq!(sync.root, Some(1));
            assert_eq!(sync.hash, [3; 32]);
            assert_eq!(sync.block_id, [4; 32]);
            assert_eq!(sync.timestamp, Some(55));
        }
        other => panic!("unexpected {:?}", other),
    }
}

#[test]
fn other_instructions_are_passed_on() {
    for instruction in [
        OutsideInstruction::UpdateCommission(5),
        OutsideInstruction::Withdraw(5),
        OutsideInstruction::UpdateValidatorIdentity,
        OutsideInstruction::Authorize(
            [7; 32].into(),
            solana_vote_program::vote_state::VoteAuthorize::Voter,
        ),
        OutsideInstruction::TowerSyncSwitch(OutsideTowerSync::from(vec![(5, 1)]), [8; 32].into()),
    ] {
        let data = bincode::serialize(&instruction).unwrap();
        assert_eq!(
            VotingService::deserialize_vote_ix(&data),
            Ok(VoteInstruction::Other(instruction))
        );
    }
}

#[test]
fn garbage_is_undecodable() {
    assert_eq!(VotingService::deserialize_vote_ix(&[]), Err(VoteOpError::Undecodable));
    assert_eq!(VotingService::deserialize_vote_ix(&[255; 9]), Err(VoteOpError::Undecodable));
    assert_eq!(
        VoteOpError::Undecodable.message(),
        "hot_spare_vote: Failed to deserialize vote transaction"
    );
    assert_eq!(
        VoteOpError::NotTowerSync.message(),
        "hot_spare_vote: Not a TowerSync instruction"
    );
}

#[test]
fn newest_vote_of_tower_sync_is_proposed() {
    let op = refresh(signed_tx(tower_sync_data(vec![(5, 2), (9, 1)])));
    let expected = ProposedVote { slot: 9, hash: [3; 32], block_id: [4; 32] };
    assert_eq!(VotingService::vote_op_to_proposed_vote(&op), Ok(expected));
    assert_eq!(VotingService::try_vote_op_to_proposed_vote(&op), Ok(Ok(expected)));
}

#[test]
fn other_instruction_proposes_no_vote() {
    let data = bincode::serialize(&OutsideInstruction::Withdraw(5)).unwrap();
    let op = refresh(signed_tx(data));
    assert_eq!(VotingService::vote_op_to_proposed_vote(&op), Err(VoteOpError::NotTowerSync));
    assert_eq!(
        VotingService::try_vote_op_to_proposed_vote(&op),
        Ok(Err(VoteOpError::NotTowerSync))
    );
}

#[test]
fn unreadable_votes_are_faults() {
    let mut tx = signed_tx(vec![]);
    tx.message.instructions.clear();
    assert_eq!(
        VotingService::try_vote_op_to_proposed_vote(&refresh(tx)),
        Err(VoteFault::NoInstruction)
    );
    assert_eq!(
        VotingService::try_vote_op_to_proposed_vote(&refresh(signed_tx(vec![255; 9]))),
        Err(VoteFault::UndecodableInstruction)
    );
    assert_eq!(
        VotingService::try_vote_op_to_proposed_vote(&refresh(signed_tx(tower_sync_data(vec![])))),
        Err(VoteFault::EmptyTowerSync)
    );
}

#[test]
fn own_votes_are_judged() {
    let mut service = service(4);
    assert_eq!(depth(&service), 3);
    assert_eq!(
        service.handle_vote_op(&vote_for(4), &upto(4), VotingSource::Primary),
        Ok(VoteOutcome::Rejected {
            slot: 4,
            error: VoteValidatorError::VoteTooOld {
                attempted_slot: 4,
                last_voted_slot: Some(4),
                root_slot: 0
            }
        })
    );
    let data = bincode::serialize(&OutsideInstruction::Withdraw(5)).unwrap();
    assert_eq!(
        service.handle_vote_op(&refresh(signed_tx(data)), &upto(5), VotingSource::Primary),
        Ok(VoteOutcome::NotTowerSync)
    );
    assert_eq!(
        service.handle_vote_op(&refresh(signed_tx(vec![])), &upto(5), VotingSource::Primary),
        Err(VoteFault::UndecodableInstruction)
    );
    assert_eq!(depth(&service), 3);
}

#[test]
fn hot_spare_is_heard_once_bootstrapped() {
    let mut early = service(8);
    assert_eq!(depth(&early), 7);
    assert_eq!(
        early.try_handle_incoming_udp_request(&request(vote_for(9), upto(9))),
        Ok(VoteOutcome::Rejected { slot: 9, error: VoteValidatorError::Bootstrapping })
    );
    let mut late = service(9);
    assert_eq!(
        late.try_handle_incoming_udp_request(&request(vote_for(10), upto(10))),
        Ok(VoteOutcome::Accepted { slot: 10 })
    );
    // The validator's own vote for the slot comes second.
    assert_eq!(
        late.handle_vote_op(&vote_for(10), &upto(10), VotingSource::Primary),
        Ok(VoteOutcome::Rejected {
            slot: 10,
            error: VoteValidatorError::VoteTooOld {
                attempted_slot: 10,
                last_voted_slot: Some(10),
                root_slot: 0
            }
        })
    );
    assert_eq!(depth(&late), 9);
}

#[test]
fn unsigned_votes_of_the_hot_spare_are_ignored() {
    let mut service = service(9);
    let data = tower_sync_data(vec![(10, 1)]);

    let mut forged = signed_tx(data.clone());
    forged.signatures[0][0] ^= 1;
    assert_eq!(
        service.try_handle_incoming_udp_request(&request(refresh(forged), upto(10))),
        Ok(VoteOutcome::NotSigned)
    );

    let mut changed = signed_tx(data.clone());
    changed.message.recent_blockhash = [6; 32];
    assert_eq!(
        service.try_handle_incoming_udp_request(&request(refresh(changed), upto(10))),
        Ok(VoteOutcome::NotSigned)
    );

    service.vote_pubkey = [1; 32];
    assert_eq!(
        service.try_handle_incoming_udp_request(&request(refresh(signed_tx(data.clone())), upto(10))),
        Ok(VoteOutcome::NotSigned)
    );
    service.vote_pubkey = keypair().pubkey().to_bytes();
    assert_eq!(
        service.handle_udp_request(&request(refresh(signed_tx(data.clone())), upto(10)), false),
        Ok(VoteOutcome::NotSigned)
    );
    assert_eq!(depth(&service), 8);
    assert_eq!(
        service.handle_udp_request(&request(refresh(signed_tx(data)), upto(10)), true),
        Ok(VoteOutcome::Accepted { slot: 10 })
    );
}

#[test]
fn requests_of_the_hot_spare_are_handled() {
    let mut service = service(9);
    let data = bincode::serialize(&OutsideInstruction::Withdraw(5)).unwrap();
    let mut forged = signed_tx(data.clone());
    forged.signatures[0][0] ^= 1;
    assert_eq!(
        service.handle_incoming_udp_request(&request(refresh(forged), upto(10))),
        VoteOutcome::NotSigned
    );
    assert_eq!(
        service.handle_incoming_udp_request(&request(refresh(signed_tx(data)), upto(10))),
        VoteOutcome::NotTowerSync
    );
    assert_eq!(
        service.handle_incoming_udp_request(&request(vote_for(10), upto(10))),
        VoteOutcome::Accepted { slot: 10 }
    );
    assert_eq!(
        service.handle_incoming_udp_request(&request(vote_for(10), upto(10))),
        VoteOutcome::Rejected {
            slot: 10,
            error: VoteValidatorError::VoteTooOld {
                attempted_slot: 10,
                last_voted_slot: Some(10),
                root_slot: 0
            }
        }
    );
    assert_eq!(depth(&service), 9);
}

#[test]
fn sent_slots_rise_whatever_arrives() {
    let mut service = service(9);
    let mut sent = Vec::new();
    let mut forged = signed_tx(tower_sync_data(vec![(11, 1)]));
    forged.signatures[0][0] ^= 1;
    for (own, vote_op, slot) in [
        (false, vote_for(10), 10),
        (true, vote_for(10), 10),
        (false, refresh(forged), 11),
        (true, refresh(signed_tx(vec![255; 9])), 11),
        (false, refresh(signed_tx(tower_sync_data(vec![]))), 11),
        (true, vote_for(12), 12),
        (false, vote_for(11), 11),
        (false, vote_for(13), 13),
        (true, vote_for(10), 10),
    ] {
        let outcome = if own {
            service.handle_vote_op(&vote_op, &upto(slot), VotingSource::Primary)
        } else {
            service.try_handle_incoming_udp_request(&request(vote_op, upto(slot)))
        };
        if let Ok(VoteOutcome::Accepted { slot }) = outcome {
            sent.push(slot);
        }
    }
    assert_eq!(sent, vec![10, 12, 13]);
}

#[test]
fn votes_that_cannot_be_checked_are_faults() {
    let mut service = service(9);
    let mut unlisted = signed_tx(tower_sync_data(vec![(10, 1)]));
    unlisted.message.header.num_required_signatures = 4;
    assert_eq!(
        service.try_handle_incoming_udp_request(&request(refresh(unlisted), upto(10))),
        Err(VoteFault::UnlistedSigners)
    );
    let mut oversized = signed_tx(tower_sync_data(vec![(10, 1)]));
    oversized.message.instructions[0].data = vec![0; 65536];
    assert!(!oversized.message.fits_wire());
    assert_eq!(
        service.try_handle_incoming_udp_request(&request(refresh(oversized), upto(10))),
        Err(VoteFault::OversizedMessage)
    );
    assert_eq!(depth(&service), 8);
}

#[test]
fn vote_that_roots_another_fork_is_a_fault() {
    let mut service = service(32);
    assert_eq!(depth(&service), 31);
    let ancestors: HashSet<u64> = (0..33).filter(|s| *s != 2).collect();
    assert_eq!(
        service.handle_vote_op(&vote_for(33), &ancestors, VotingSource::Primary),
        Err(VoteFault::RootOffFork)
    );
    assert_eq!(
        service.try_handle_incoming_udp_request(&request(vote_for(33), ancestors.clone())),
        Err(VoteFault::RootOffFork)
    );
    let vote = ProposedVote { slot: 33, hash: [0; 32], block_id: [0; 32] };
    assert_eq!(
        service.submit_proposed_vote(&vote, &ancestors, VotingSource::Primary),
        Err(VoteFault::RootOffFork)
    );
    assert_eq!(
        service.submit_proposed_vote(&vote, &upto(33), VotingSource::Primary),
        Ok(VoteOutcome::Accepted { slot: 33 })
    );
}

#[test]
fn signature_is_that_of_a_required_signer() {
    let key = keypair().pubkey().to_bytes();
    let tx = signed_tx(tower_sync_data(vec![(10, 1)]));
    assert!(tx.verify());
    assert!(outside(&tx).verify().is_ok());
    assert!(tx.message.signers_are_listed());
    assert!(tx.message.requires_signer(&key));
    // A key that is listed but need not sign.
    assert!(!tx.message.requires_signer(&[1; 32]));
    assert_eq!(VotingService::is_signed_by(&refresh(tx.clone()), &key), Ok(true));
    assert_eq!(VotingService::is_signed_by(&refresh(tx), &[1; 32]), Ok(false));
}

#[test]
fn wire_form_is_that_of_bincode() {
    let tx = signed_tx(tower_sync_data(vec![(10, 1)]));
    let bytes = tx.serialize().unwrap();
    assert_eq!(bytes, bincode::serialize(&outside(&tx)).unwrap());
    let back: solana_transaction::Transaction = bincode::deserialize(&bytes).unwrap();
    assert_eq!(back, outside(&tx));
}

#[test]
fn wire_form_holds_lists_up_to_its_limit() {
    let mut tx = signed_tx(vec![0; 65535]);
    assert!(tx.serialize().is_ok());
    tx.message.instructions[0].data.push(0);
    assert!(tx.serialize().is_err());
    let mut tx = signed_tx(vec![]);
    tx.signatures = vec![[0; 64]; 65536];
    assert!(tx.serialize().is_err());
    assert!(tx.message.fits_wire());
    let mut tx = signed_tx(vec![]);
    tx.message.account_keys = vec![[0; 32]; 65536];
    assert!(tx.serialize().is_err());
    assert!(!tx.message.fits_wire());
    let mut tx = signed_tx(vec![]);
    tx.message.instructions[0].accounts = vec![0; 65536];
    assert!(tx.serialize().is_err());
    assert!(!tx.message.fits_wire());
}

#[test]
fn vote_is_sent_to_the_given_address_or_the_own_one() {
    let tx = signed_tx(vec![1, 2, 3]);
    let bytes = bincode::serialize(&outside(&tx)).unwrap();
    match send_vote_transaction(&tx, Some("leader"), Some("own")) {
        Ok((address, packet)) => {
            assert_eq!(address, "leader");
            assert_eq!(packet, bytes);
        }
        Err(error) => panic!("unexpected {:?}", error),
    }
    match send_vote_transaction(&tx, None, Some("own")) {
        Ok((address, packet)) => {
            assert_eq!(address, "own");
            assert_eq!(packet, bytes);
        }
        Err(error) => panic!("unexpected {:?}", error),
    }
}

#[test]
fn vote_without_address_or_wire_form_is_not_sent() {
    let mut tx = signed_tx(vec![1, 2, 3]);
    assert!(matches!(
        send_vote_transaction::<u8>(&tx, None, None),
        Err(SendVoteError::InvalidTpuAddress)
    ));
    tx.message.instructions[0].data = vec![0; 65536];
    assert!(matches!(
        send_vote_transaction(&tx, Some(1u8), None),
        Err(SendVoteError::BincodeError(_))
    ));
    assert!(matches!(
        send_vote_transaction::<u8>(&tx, None, None),
        Err(SendVoteError::InvalidTpuAddress)
    ));
}

fn push(saved_tower: Option<u8>) -> VoteOp<u8> {
    VoteOp::PushVote { tx: signed_tx(vec![1]), tower_slots: vec![4, 5], saved_tower }
}

/// Runs a delivery to its end, where `sockets` are the coming leaders, and says what was done.
fn deliver(vote_op: &VoteOp<u8>, stored: bool, sockets: Vec<u16>, delivered: bool) -> Vec<String> {
    let mut done = Vec::new();
    let mut stage = DeliveryStage::Admitted;
    let mut event = DeliveryEvent::Admitted;
    loop {
        assert!(stage.awaits(&event));
        let (next, action) = VotingService::handle_vote(vote_op, stage, event);
        stage = next;
        event = match action {
            DeliveryAction::StoreTower { saved_tower } => {
                done.push(format!("store {}", saved_tower));
                DeliveryEvent::TowerStored { stored }
            }
            DeliveryAction::FindLeaders { fanout_slots } => {
                done.push(format!("leaders of {}", fanout_slots));
                DeliveryEvent::LeadersFound { sockets: sockets.clone() }
            }
            DeliveryAction::Send { tpu, tx } => {
                assert_eq!(tx, vote_op.tx());
                done.push(format!("send {:?}", tpu));
                DeliveryEvent::Sent { delivered }
            }
            DeliveryAction::Exit { code } => {
                done.push(format!("exit {}", code));
                break;
            }
            DeliveryAction::Publish { publication: Publication::PushVote { tower_slots, tx } } => {
                assert_eq!(tx, vote_op.tx());
                done.push(format!("push {:?}", tower_slots));
                break;
            }
            DeliveryAction::Publish {
                publication: Publication::RefreshVote { tx, last_voted_slot },
            } => {
                assert_eq!(tx, vote_op.tx());
                done.push(format!("refresh {}", last_voted_slot));
                break;
            }
        };
    }
    for event in [
        DeliveryEvent::Admitted,
        DeliveryEvent::TowerStored { stored: true },
        DeliveryEvent::LeadersFound { sockets: vec![1] },
        DeliveryEvent::Sent { delivered: true },
    ] {
        assert!(!stage.awaits(&event));
    }
    done
}

#[test]
fn new_vote_is_stored_sent_to_every_leader_and_pushed() {
    assert_eq!(
        deliver(&push(Some(42)), true, vec![10, 20], true),
        vec!["store 42", "leaders of 2", "send Some(10)", "send Some(20)", "push [4, 5]"]
    );
}

#[test]
fn failed_storage_ends_the_process() {
    assert_eq!(deliver(&push(Some(42)), false, vec![10, 20], true), vec!["store 42", "exit 1"]);
}

#[test]
fn failed_sends_make_no_difference() {
    for vote_op in [push(Some(42)), push(None), refresh(signed_tx(vec![1]))] {
        for sockets in [vec![], vec![10], vec![10, 20, 30]] {
            assert_eq!(
                deliver(&vote_op, true, sockets.clone(), false),
                deliver(&vote_op, true, sockets, true)
            );
        }
    }
}

#[test]
fn vote_without_tower_looks_up_leaders_at_once() {
    assert_eq!(
        deliver(&push(None), false, vec![7], true),
        vec!["leaders of 2", "send Some(7)", "push [4, 5]"]
    );
}

#[test]
fn vote_goes_to_the_validator_itself_without_leaders() {
    assert_eq!(
        deliver(&refresh(signed_tx(vec![1])), true, vec![], true),
        vec!["leaders of 2", "send None", "refresh 77"]
    );
}

#[test]
fn vote_is_published_only_when_nobody_waits() {
    let op = refresh(signed_tx(vec![1]));
    let sending = DeliveryStage::Sending { waiting: vec![Some(3u16)] };
    let (stage, action) =
        VotingService::handle_vote(&op, sending, DeliveryEvent::Sent { delivered: false });
    assert!(matches!(action, DeliveryAction::Send { tpu: Some(3), .. }));
    assert!(matches!(&stage, DeliveryStage::Sending { waiting } if waiting.is_empty()));
    let (stage, action) =
        VotingService::handle_vote(&op, stage, DeliveryEvent::Sent { delivered: false });
    assert!(matches!(action, DeliveryAction::Publish { .. }));
    assert!(matches!(stage, DeliveryStage::Over));
}

#[test]
fn stages_await_the_answer_to_their_action() {
    let stages: Vec<DeliveryStage<u16>> = vec![
        DeliveryStage::Admitted,
        DeliveryStage::StoringTower,
        DeliveryStage::FindingLeaders,
        DeliveryStage::Sending { waiting: vec![] },
    ];
    let events = vec![
        DeliveryEvent::Admitted,
        DeliveryEvent::TowerStored { stored: false },
        DeliveryEvent::LeadersFound { sockets: vec![] },
        DeliveryEvent::Sent { delivered: false },
    ];
    for (i, stage) in stages.iter().enumerate() {
        for (j, event) in events.iter().enumerate() {
            assert_eq!(stage.awaits(event), i == j);
        }
    }
}
