//! Vote instructions: what a vote transaction asks of the vote program.
use crate::lockout::{Lockout, Slot};
use crate::validator::ProposedVote;
use solana_vote_program::vote_instruction::VoteInstruction as ProgramInstruction;
use vstd::prelude::*;

verus! {

/// A tower that a validator puts in place of the one the cluster knows.
#[derive(Clone, Debug, PartialEq, Eq)]
pub struct TowerSync {
    pub lockouts: Vec<Lockout>,
    pub root: Option<Slot>,
    pub hash: crate::tower::Hash,
    pub timestamp: Option<i64>,
    pub block_id: crate::tower::Hash,
}

/// An instruction of the vote program. A tower sync carries a vote that can be admitted; any other
/// instruction is passed on as the vote program has it.
#[derive(Debug, PartialEq, Eq)]
pub enum VoteInstruction {
    TowerSync(TowerSync),
    Other(ProgramInstruction),
}

/// What a [`TowerSync`] holds.
#[verifier::ext_equal]
pub struct TowerSyncModel {
    pub lockouts: Seq<Lockout>,
    pub root: Option<Slot>,
    pub hash: crate::tower::Hash,
    pub timestamp: Option<i64>,
    pub block_id: crate::tower::Hash,
}

/// What a [`VoteInstruction`] holds.
#[verifier::ext_equal]
pub enum VoteInstructionModel {
    TowerSync(TowerSyncModel),
    Other(ProgramInstruction),
}

impl View for TowerSync {
    type V = TowerSyncModel;

    open spec fn view(&self) -> TowerSyncModel {
        TowerSyncModel {
            lockouts: self.lockouts@,
            root: self.root,
            hash: self.hash,
            timestamp: self.timestamp,
            block_id: self.block_id,
        }
    }
}

impl View for VoteInstruction {
    type V = VoteInstructionModel;

    open spec fn view(&self) -> VoteInstructionModel {
        match self {
            VoteInstruction::TowerSync(tower_sync) => VoteInstructionModel::TowerSync(tower_sync@),
            VoteInstruction::Other(other) => VoteInstructionModel::Other(*other),
        }
    }
}

/// Why the vote of a transaction cannot be read.
#[derive(Clone, Copy, Debug, PartialEq, Eq, Structural)]
pub enum VoteOpError {
    /// The data is no instruction of the vote program.
    Undecodable,
    /// The instruction is not a tower sync.
    NotTowerSync,
}

impl VoteOpError {
    /// The error in words.
    pub fn message(&self) -> (message: &'static str)
        ensures
            message@ == match self {
                VoteOpError::Undecodable =>
                    "hot_spare_vote: Failed to deserialize vote transaction"@,
                VoteOpError::NotTowerSync => "hot_spare_vote: Not a TowerSync instruction"@,
            },
    {
        match self {
            VoteOpError::Undecodable => "hot_spare_vote: Failed to deserialize vote transaction",
            VoteOpError::NotTowerSync => "hot_spare_vote: Not a TowerSync instruction",
        }
    }
}

/// The vote instruction that `solana_sdk::program_utils::limited_deserialize` reads from `data`,
/// or none if it fails.
pub uninterp spec fn decoded_instruction(data: Seq<u8>) -> Option<VoteInstructionModel>;

/// `solana_sdk::instruction::InstructionError`, the reason for which an instruction cannot be
/// read, as an opaque value.
#[verifier::external_type_specification]
#[verifier::external_body]
pub struct ExInstructionError(solana_sdk::instruction::InstructionError);

/// `solana_vote_program::vote_instruction::VoteInstruction`, an instruction as the vote program has
/// it, as an opaque value.
#[verifier::external_type_specification]
#[verifier::external_body]
pub struct ExProgramInstruction(ProgramInstruction);

/// `solana_sdk::program_utils::limited_deserialize`, which reads an instruction of the vote
/// program from the front of `data`. That what is read, and whether anything is, depends on
/// nothing but the bytes is taken on trust. What the bytes mean is named and not spelled out. A
/// tower sync is given field by field, any other instruction is handed on whole.
#[verifier::external_body]
pub(crate) fn decode_instruction(data: &[u8]) -> (instruction: Result<
    VoteInstruction,
    solana_sdk::instruction::InstructionError,
>)
    ensures
        match decoded_instruction(data@) {
            Some(decoded) => instruction matches Ok(i) && i@ == decoded,
            None => instruction is Err,
        },
{
    match solana_sdk::program_utils::limited_deserialize(data)? {
        ProgramInstruction::TowerSync(sync) => {
            let to_lockout = |l: &solana_vote_program::vote_state::Lockout| Lockout {
                slot: l.slot(),
                confirmation_count: l.confirmation_count(),
            };
            Ok(VoteInstruction::TowerSync(TowerSync {
                lockouts: sync.lockouts.iter().map(to_lockout).collect(),
                root: sync.root, hash: sync.hash.to_bytes(),
                timestamp: sync.timestamp, block_id: sync.block_id.to_bytes(),
            }))
        }
        other => Ok(VoteInstruction::Other(other)),
    }
}

/// Whether an instruction can be asked for its vote: a tower sync must hold at least one.
pub open spec fn holds_vote(instruction: VoteInstructionModel) -> bool {
    instruction matches VoteInstructionModel::TowerSync(sync) ==> sync.lockouts.len() > 0
}

/// The vote that an instruction proposes: the newest one of a tower sync.
pub open spec fn proposed_vote(instruction: VoteInstructionModel) -> Result<
    ProposedVote,
    VoteOpError,
> {
    match instruction {
        VoteInstructionModel::TowerSync(sync) => Ok(
            ProposedVote {
                slot: sync.lockouts.last().slot,
                hash: sync.hash,
                block_id: sync.block_id,
            },
        ),
        VoteInstructionModel::Other(_) => Err(VoteOpError::NotTowerSync),
    }
}

impl VoteInstruction {
    /// Whether the instruction can be asked for its vote.
    pub fn holds_vote(&self) -> (holds: bool)
        ensures
            holds == holds_vote(self@),
    {
        match self {
            VoteInstruction::TowerSync(sync) => sync.lockouts.len() > 0,
            VoteInstruction::Other(_) => true,
        }
    }

    /// The vote that the instruction proposes.
    pub fn proposed_vote(&self) -> (vote: Result<ProposedVote, VoteOpError>)
        requires
            holds_vote(self@),
        ensures
            vote == proposed_vote(self@),
            self matches VoteInstruction::TowerSync(sync) ==> (vote matches Ok(newest) && {
                &&& newest.slot == sync.lockouts@[sync.lockouts@.len() - 1].slot
                &&& newest.hash == sync.hash
                &&& newest.block_id == sync.block_id
            }),
    {
        match self {
            VoteInstruction::TowerSync(sync) => {
                let slot: Slot = sync.lockouts[sync.lockouts.len() - 1].slot();
                Ok(ProposedVote { slot, hash: sync.hash, block_id: sync.block_id })
            },
            VoteInstruction::Other(_) => Err(VoteOpError::NotTowerSync),
        }
    }
}

} // verus!
