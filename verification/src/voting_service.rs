//! The service through which votes reach the cluster: it reads each vote, lets the secondary
//! tower judge it, and says what is to be done with one that was admitted.
use crate::instruction::{VoteInstruction, VoteInstructionModel, VoteOpError};
use crate::lockout::Slot;
use crate::tower::TowerModel;
use crate::transaction::{Pubkey, TransactionModel};
use crate::validator::{ProposedVote, TowerVoteValidator, VoteValidatorError, VotingSource};
use crate::vote_op::{VoteOp, VoteOpWithAncestors};
use std::collections::HashSet;
use vstd::prelude::*;

verus! {

/// The number of coming slots whose leaders are sent a vote.
pub const UPCOMING_LEADER_FANOUT_SLOTS: u64 = 2;

/// A vote that no service can handle: whoever passes it on has to stop.
#[derive(Clone, Copy, Debug, PartialEq, Eq, Structural)]
pub enum VoteFault {
    /// The transaction has no instruction.
    NoInstruction,
    /// The first instruction is none of the vote program.
    UndecodableInstruction,
    /// The first instruction is a tower sync without votes.
    EmptyTowerSync,
    /// The transaction counts more signers than it has keys.
    UnlistedSigners,
    /// The message is too long to be encoded, so no signature of it can be checked.
    OversizedMessage,
    /// The vote would move the tower's root off its own fork.
    RootOffFork,
}

/// What became of a vote.
#[derive(Clone, Copy, Debug, PartialEq, Eq, Structural)]
pub enum VoteOutcome {
    /// The transaction is not signed by the vote account.
    NotSigned,
    /// The instruction is not a tower sync.
    NotTowerSync,
    /// The tower turned the vote down.
    Rejected { slot: Slot, error: VoteValidatorError },
    /// The tower took the vote, and it is to be sent.
    Accepted { slot: Slot },
}

/// What the first instruction of a transaction, once it is decoded, says about the vote.
pub open spec fn reading_of(decoded: Option<VoteInstructionModel>) -> Result<
    Result<ProposedVote, VoteOpError>,
    VoteFault,
> {
    match decoded {
        None => Err(VoteFault::UndecodableInstruction),
        Some(instruction) => if crate::instruction::holds_vote(instruction) {
            Ok(crate::instruction::proposed_vote(instruction))
        } else {
            Err(VoteFault::EmptyTowerSync)
        },
    }
}

/// The first instruction of a transaction, decoded.
pub open spec fn first_instruction(transaction: TransactionModel) -> Option<VoteInstructionModel> {
    crate::instruction::decoded_instruction(transaction.message.instructions[0].data)
}

/// What a transaction says about the vote.
pub open spec fn reading(transaction: TransactionModel) -> Result<
    Result<ProposedVote, VoteOpError>,
    VoteFault,
> {
    if transaction.message.instructions.len() == 0 {
        Err(VoteFault::NoInstruction)
    } else {
        reading_of(first_instruction(transaction))
    }
}

/// What becomes of a vote that was read, and the tower it leaves.
pub open spec fn submission(
    tower: TowerModel,
    vote: ProposedVote,
    ancestors: Set<Slot>,
    source: VotingSource,
) -> (Result<VoteOutcome, VoteFault>, TowerModel) {
    if !crate::validator::is_judgeable(tower, vote.slot, ancestors) {
        (Err(VoteFault::RootOffFork), tower)
    } else {
        match crate::validator::judge(tower, vote, ancestors, source) {
            (Ok(()), after) => (Ok(VoteOutcome::Accepted { slot: vote.slot }), after),
            (Err(error), after) => (
                Ok(VoteOutcome::Rejected { slot: vote.slot, error }),
                after,
            ),
        }
    }
}

/// What becomes of a vote, given what its transaction says, and the tower it leaves.
pub open spec fn handling(
    tower: TowerModel,
    reading: Result<Result<ProposedVote, VoteOpError>, VoteFault>,
    ancestors: Set<Slot>,
    source: VotingSource,
) -> (Result<VoteOutcome, VoteFault>, TowerModel) {
    match reading {
        Err(fault) => (Err(fault), tower),
        Ok(Err(_)) => (Ok(VoteOutcome::NotTowerSync), tower),
        Ok(Ok(vote)) => submission(tower, vote, ancestors, source),
    }
}

/// Whether the transaction of the hot spare is signed by the vote account, given whether its
/// signatures verify.
pub open spec fn signing(transaction: TransactionModel, key: Pubkey, verifies: bool) -> Result<
    bool,
    VoteFault,
> {
    if !transaction.message.signers_are_listed() {
        Err(VoteFault::UnlistedSigners)
    } else if !transaction.message.requires_signer(key) {
        Ok(false)
    } else if !transaction.message.fits_wire() {
        Err(VoteFault::OversizedMessage)
    } else {
        Ok(verifies)
    }
}

/// What becomes of a vote of the hot spare, given whether it is signed by the vote account and
/// what its transaction says, and the tower it leaves.
pub open spec fn udp_handling(
    tower: TowerModel,
    signed: Result<bool, VoteFault>,
    reading: Result<Result<ProposedVote, VoteOpError>, VoteFault>,
    ancestors: Set<Slot>,
) -> (Result<VoteOutcome, VoteFault>, TowerModel) {
    match signed {
        Err(fault) => (Err(fault), tower),
        Ok(false) => (Ok(VoteOutcome::NotSigned), tower),
        Ok(true) => handling(tower, reading, ancestors, VotingSource::Secondary),
    }
}

/// What becomes of a transaction that the hot spare sent as its vote, and the tower it leaves.
pub open spec fn udp_outcome(
    tower: TowerModel,
    transaction: TransactionModel,
    ancestors: Set<Slot>,
    vote_pubkey: Pubkey,
) -> (Result<VoteOutcome, VoteFault>, TowerModel) {
    udp_handling(
        tower,
        signing(
            transaction,
            vote_pubkey,
            crate::transaction::transaction_verifies(transaction),
        ),
        reading(transaction),
        ancestors,
    )
}

/// The state of the service: the tower that judges votes, and the key that signs the hot spare's.
#[derive(Debug)]
pub struct VotingService {
    pub tower_vote_validator: TowerVoteValidator,
    pub vote_pubkey: Pubkey,
}

impl VotingService {
    /// A service with a fresh tower.
    pub fn new(vote_pubkey: Pubkey) -> (service: Self)
        ensures
            service.tower_vote_validator@ == TowerModel::fresh(),
            service.tower_vote_validator@.is_sound(),
            service.vote_pubkey == vote_pubkey,
    {
        VotingService { tower_vote_validator: TowerVoteValidator::new(), vote_pubkey }
    }

    /// Reads an instruction of the vote program from the front of `serialized`.
    pub fn deserialize_vote_ix(serialized: &[u8]) -> (instruction: Result<
        VoteInstruction,
        VoteOpError,
    >)
        ensures
            match crate::instruction::decoded_instruction(serialized@) {
                Some(decoded) => instruction matches Ok(i) && i@ == decoded,
                None => instruction matches Err(error) && error == VoteOpError::Undecodable,
            },
    {
        match crate::instruction::decode_instruction(serialized) {
            Ok(instruction) => Ok(instruction),
            Err(_) => Err(VoteOpError::Undecodable),
        }
    }

    /// The vote that the first instruction of the transaction proposes.
    pub fn vote_op_to_proposed_vote<S>(vote_op: &VoteOp<S>) -> (vote: Result<
        ProposedVote,
        VoteOpError,
    >)
        requires
            reading(vote_op.transaction()@) is Ok,
        ensures
            reading(vote_op.transaction()@) == Ok::<Result<ProposedVote, VoteOpError>, VoteFault>(
                vote,
            ),
    {
        let instructions = &vote_op.tx().message.instructions;
        assert(vote_op.transaction()@.message.instructions[0] == instructions@[0]@);
        match Self::deserialize_vote_ix(instructions[0].data.as_slice()) {
            Ok(instruction) => instruction.proposed_vote(),
            Err(error) => Err(error),
        }
    }

    /// The vote that the first instruction of the transaction proposes, or the fault for which
    /// there is no telling.
    pub fn try_vote_op_to_proposed_vote<S>(vote_op: &VoteOp<S>) -> (read: Result<
        Result<ProposedVote, VoteOpError>,
        VoteFault,
    >)
        ensures
            read == reading(vote_op.transaction()@),
    {
        let instructions = &vote_op.tx().message.instructions;
        if instructions.len() == 0 {
            return Err(VoteFault::NoInstruction);
        }
        assert(vote_op.transaction()@.message.instructions[0] == instructions@[0]@);
        match Self::deserialize_vote_ix(instructions[0].data.as_slice()) {
            Ok(instruction) => {
                if instruction.holds_vote() {
                    Ok(Self::vote_op_to_proposed_vote(vote_op))
                } else {
                    Err(VoteFault::EmptyTowerSync)
                }
            },
            Err(_) => Err(VoteFault::UndecodableInstruction),
        }
    }

    /// Lets the tower judge a vote that was read.
    pub fn submit_proposed_vote(
        &mut self,
        proposed_vote: &ProposedVote,
        ancestors: &HashSet<Slot>,
        source: VotingSource,
    ) -> (outcome: Result<VoteOutcome, VoteFault>)
        requires
            old(self).tower_vote_validator@.stack.root_slot is Some,
        ensures
            (outcome, final(self).tower_vote_validator@) == submission(
                old(self).tower_vote_validator@,
                *proposed_vote,
                ancestors@,
                source,
            ),
            final(self).vote_pubkey == old(self).vote_pubkey,
            final(self).tower_vote_validator@.stack.root_slot is Some,
            old(self).tower_vote_validator@.is_sound()
                ==> final(self).tower_vote_validator@.is_sound(),
    {
        let slot: Slot = proposed_vote.slot;
        if !self.tower_vote_validator.can_judge(slot, ancestors) {
            return Err(VoteFault::RootOffFork);
        }
        match self.tower_vote_validator.try_add_vote(proposed_vote, ancestors, source) {
            Ok(()) => Ok(VoteOutcome::Accepted { slot }),
            Err(error) => Ok(VoteOutcome::Rejected { slot, error }),
        }
    }

    /// Handles a vote from `source`: reads it and lets the tower judge it.
    pub fn handle_vote_op<S>(
        &mut self,
        vote_op: &VoteOp<S>,
        ancestors: &HashSet<Slot>,
        source: VotingSource,
    ) -> (outcome: Result<VoteOutcome, VoteFault>)
        requires
            old(self).tower_vote_validator@.stack.root_slot is Some,
        ensures
            (outcome, final(self).tower_vote_validator@) == handling(
                old(self).tower_vote_validator@,
                reading(vote_op.transaction()@),
                ancestors@,
                source,
            ),
            final(self).vote_pubkey == old(self).vote_pubkey,
            final(self).tower_vote_validator@.stack.root_slot is Some,
            old(self).tower_vote_validator@.is_sound()
                ==> final(self).tower_vote_validator@.is_sound(),
    {
        match Self::try_vote_op_to_proposed_vote(vote_op) {
            Err(fault) => Err(fault),
            Ok(Err(_)) => Ok(VoteOutcome::NotTowerSync),
            Ok(Ok(vote)) => self.submit_proposed_vote(&vote, ancestors, source),
        }
    }

    /// Whether the vote's transaction is signed by `vote_pubkey`.
    pub fn is_signed_by<S>(vote_op: &VoteOp<S>, vote_pubkey: &Pubkey) -> (signed: Result<
        bool,
        VoteFault,
    >)
        ensures
            signed == signing(
                vote_op.transaction()@,
                *vote_pubkey,
                crate::transaction::transaction_verifies(vote_op.transaction()@),
            ),
    {
        let tx = vote_op.tx();
        if !tx.message.signers_are_listed() {
            return Err(VoteFault::UnlistedSigners);
        }
        if !tx.message.requires_signer(vote_pubkey) {
            return Ok(false);
        }
        if !tx.message.fits_wire() {
            return Err(VoteFault::OversizedMessage);
        }
        Ok(tx.verify())
    }

    /// Handles a vote of the hot spare, given whether it is signed by the vote account.
    pub fn handle_udp_request<S>(
        &mut self,
        request: &VoteOpWithAncestors<S>,
        signed: bool,
    ) -> (outcome: Result<VoteOutcome, VoteFault>)
        requires
            old(self).tower_vote_validator@.stack.root_slot is Some,
        ensures
            (outcome, final(self).tower_vote_validator@) == udp_handling(
                old(self).tower_vote_validator@,
                Ok(signed),
                reading(request.vote_op.transaction()@),
                request.ancestors@,
            ),
            final(self).vote_pubkey == old(self).vote_pubkey,
            final(self).tower_vote_validator@.stack.root_slot is Some,
            old(self).tower_vote_validator@.is_sound()
                ==> final(self).tower_vote_validator@.is_sound(),
    {
        if !signed {
            return Ok(VoteOutcome::NotSigned);
        }
        self.handle_vote_op(&request.vote_op, &request.ancestors, VotingSource::Secondary)
    }

    /// Handles a vote of the hot spare: one that is not signed by the vote account is ignored,
    /// any other is read and judged by the tower. The vote must be one that can be handled: its
    /// signers are listed and it raises no other fault.
    pub fn handle_incoming_udp_request<S>(&mut self, request: &VoteOpWithAncestors<S>) -> (outcome:
        VoteOutcome)
        requires
            old(self).tower_vote_validator@.stack.root_slot is Some,
            request.vote_op.transaction()@.message.signers_are_listed(),
            udp_outcome(
                old(self).tower_vote_validator@,
                request.vote_op.transaction()@,
                request.ancestors@,
                old(self).vote_pubkey,
            ).0 is Ok,
        ensures
            (Ok::<VoteOutcome, VoteFault>(outcome), final(self).tower_vote_validator@)
                == udp_outcome(
                old(self).tower_vote_validator@,
                request.vote_op.transaction()@,
                request.ancestors@,
                old(self).vote_pubkey,
            ),
            final(self).vote_pubkey == old(self).vote_pubkey,
            final(self).tower_vote_validator@.stack.root_slot is Some,
            old(self).tower_vote_validator@.is_sound()
                ==> final(self).tower_vote_validator@.is_sound(),
    {
        let tx = request.vote_op.tx();
        if !tx.message.requires_signer(&self.vote_pubkey) || !tx.verify() {
            return VoteOutcome::NotSigned;
        }
        match Self::vote_op_to_proposed_vote(&request.vote_op) {
            Err(_) => VoteOutcome::NotTowerSync,
            Ok(vote) => {
                let slot: Slot = vote.slot;
                match self.tower_vote_validator.try_add_vote(
                    &vote,
                    &request.ancestors,
                    VotingSource::Secondary,
                ) {
                    Ok(()) => VoteOutcome::Accepted { slot },
                    Err(error) => VoteOutcome::Rejected { slot, error },
                }
            },
        }
    }

    /// Handles any vote of the hot spare, or says for which fault it cannot be handled.
    pub fn try_handle_incoming_udp_request<S>(
        &mut self,
        request: &VoteOpWithAncestors<S>,
    ) -> (outcome: Result<VoteOutcome, VoteFault>)
        requires
            old(self).tower_vote_validator@.stack.root_slot is Some,
        ensures
            (outcome, final(self).tower_vote_validator@) == udp_outcome(
                old(self).tower_vote_validator@,
                request.vote_op.transaction()@,
                request.ancestors@,
                old(self).vote_pubkey,
            ),
            final(self).vote_pubkey == old(self).vote_pubkey,
            final(self).tower_vote_validator@.stack.root_slot is Some,
            old(self).tower_vote_validator@.is_sound()
                ==> final(self).tower_vote_validator@.is_sound(),
    {
        match Self::is_signed_by(&request.vote_op, &self.vote_pubkey) {
            Err(fault) => return Err(fault),
            Ok(false) => return Ok(VoteOutcome::NotSigned),
            Ok(true) => {},
        }
        match Self::try_vote_op_to_proposed_vote(&request.vote_op) {
            Err(fault) => return Err(fault),
            Ok(Err(_)) => {},
            Ok(Ok(vote)) => {
                if !self.tower_vote_validator.can_judge(vote.slot, &request.ancestors) {
                    return Err(VoteFault::RootOffFork);
                }
            },
        }
        Ok(self.handle_incoming_udp_request(request))
    }
}

} // verus!
