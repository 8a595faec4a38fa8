//! Vote transactions: what they hold, whether they are signed, and their form on the wire.
use solana_sdk::instruction::CompiledInstruction as WireInstruction;
use solana_sdk::message::{Message as WireMessage, MessageHeader as WireHeader};
use solana_transaction::Transaction as WireTransaction;
use vstd::prelude::*;

verus! {

/// The key of an account.
pub type Pubkey = [u8; 32];

/// A signature of a message.
pub type Signature = [u8; 64];

/// The longest list of keys, signatures, instructions or bytes that the wire form can hold.
pub const MAX_WIRE_LENGTH: usize = 65535;

/// How many of a message's keys sign it, and how many are read only.
#[derive(Clone, Copy, Debug, PartialEq, Eq, Structural)]
pub struct MessageHeader {
    pub num_required_signatures: u8,
    pub num_readonly_signed_accounts: u8,
    pub num_readonly_unsigned_accounts: u8,
}

/// A call of a program, with its accounts given as positions among the message's keys.
#[derive(Clone, Debug, PartialEq, Eq)]
pub struct CompiledInstruction {
    pub program_id_index: u8,
    pub accounts: Vec<u8>,
    pub data: Vec<u8>,
}

/// What the signers of a transaction sign.
#[derive(Clone, Debug, PartialEq, Eq)]
pub struct Message {
    pub header: MessageHeader,
    pub account_keys: Vec<Pubkey>,
    pub recent_blockhash: crate::tower::Hash,
    pub instructions: Vec<CompiledInstruction>,
}

/// A message with its signatures.
#[derive(Clone, Debug, PartialEq, Eq)]
pub struct Transaction {
    pub signatures: Vec<Signature>,
    pub message: Message,
}

/// What a [`CompiledInstruction`] holds.
#[verifier::ext_equal]
pub struct InstructionModel {
    pub program_id_index: u8,
    pub accounts: Seq<u8>,
    pub data: Seq<u8>,
}

/// What a [`Message`] holds.
#[verifier::ext_equal]
pub struct MessageModel {
    pub header: MessageHeader,
    pub account_keys: Seq<Pubkey>,
    pub recent_blockhash: crate::tower::Hash,
    pub instructions: Seq<InstructionModel>,
}

/// What a [`Transaction`] holds.
#[verifier::ext_equal]
pub struct TransactionModel {
    pub signatures: Seq<Signature>,
    pub message: MessageModel,
}

impl View for CompiledInstruction {
    type V = InstructionModel;

    open spec fn view(&self) -> InstructionModel {
        InstructionModel {
            program_id_index: self.program_id_index,
            accounts: self.accounts@,
            data: self.data@,
        }
    }
}

impl View for Message {
    type V = MessageModel;

    open spec fn view(&self) -> MessageModel {
        MessageModel {
            header: self.header,
            account_keys: self.account_keys@,
            recent_blockhash: self.recent_blockhash,
            instructions: self.instructions@.map_values(|i: CompiledInstruction| i@),
        }
    }
}

impl View for Transaction {
    type V = TransactionModel;

    open spec fn view(&self) -> TransactionModel {
        TransactionModel { signatures: self.signatures@, message: self.message@ }
    }
}

impl MessageModel {
    /// Whether every list of the message is short enough for the wire form.
    pub open spec fn fits_wire(self) -> bool {
        &&& self.account_keys.len() <= MAX_WIRE_LENGTH
        &&& self.instructions.len() <= MAX_WIRE_LENGTH
        &&& forall|i: int|
            0 <= i < self.instructions.len() ==> (#[trigger] self.instructions[i]).accounts.len()
                <= MAX_WIRE_LENGTH && self.instructions[i].data.len() <= MAX_WIRE_LENGTH
    }

    /// Whether the header counts no more signers than there are keys.
    pub open spec fn signers_are_listed(self) -> bool {
        self.header.num_required_signatures <= self.account_keys.len()
    }

    /// Whether `key` is among the keys that must sign the message.
    pub open spec fn requires_signer(self, key: Pubkey) -> bool {
        exists|i: int|
            0 <= i < self.header.num_required_signatures && #[trigger] self.account_keys[i] == key
    }
}

impl TransactionModel {
    /// Whether every list of the transaction is short enough for the wire form.
    pub open spec fn fits_wire(self) -> bool {
        self.signatures.len() <= MAX_WIRE_LENGTH && self.message.fits_wire()
    }
}

/// Whether `solana_transaction::Transaction::verify` accepts a transaction.
pub uninterp spec fn transaction_verifies(transaction: TransactionModel) -> bool;

/// The bytes that `bincode::serialize` gives for a transaction.
pub uninterp spec fn transaction_wire_form(transaction: TransactionModel) -> Seq<u8>;

/// `bincode::ErrorKind`, the reason for which bincode failed, as an opaque value.
#[verifier::external_type_specification]
#[verifier::external_body]
pub struct ExBincodeErrorKind(bincode::ErrorKind);

/// `solana_transaction::Transaction::verify`, which checks each signature against the key at the
/// same position and the encoded message. That the answer depends on nothing but the transaction
/// is taken on trust. The call panics on a message that is too long to encode.
#[verifier::external_body]
fn verify_signatures(transaction: &Transaction) -> (verified: bool)
    requires
        transaction@.message.fits_wire(),
    ensures
        verified == transaction_verifies(transaction@),
{
    let m = &transaction.message;
    let header = WireHeader {
        num_required_signatures: m.header.num_required_signatures,
        num_readonly_signed_accounts: m.header.num_readonly_signed_accounts,
        num_readonly_unsigned_accounts: m.header.num_readonly_unsigned_accounts,
    };
    let account_keys = m.account_keys.iter().map(|k| (*k).into()).collect();
    let instructions = m.instructions.iter().map(|i| WireInstruction {
        program_id_index: i.program_id_index, accounts: i.accounts.clone(), data: i.data.clone(),
    }).collect();
    let recent_blockhash = m.recent_blockhash.into();
    let message = WireMessage { header, account_keys, recent_blockhash, instructions };
    let signatures = transaction.signatures.iter().map(|s| (*s).into()).collect();
    WireTransaction { signatures, message }.verify().is_ok()
}

/// `bincode::serialize` on a `solana_transaction::Transaction`. It fails exactly on a transaction
/// with a list that is longer than the two-byte length of the wire form can say. What the bytes
/// are is named and not spelled out.
#[verifier::external_body]
fn serialize_transaction(transaction: &Transaction) -> (bytes: Result<Vec<u8>, bincode::Error>)
    ensures
        bytes is Ok <==> transaction@.fits_wire(),
        bytes matches Ok(b) ==> b@ == transaction_wire_form(transaction@),
{
    let m = &transaction.message;
    let header = WireHeader {
        num_required_signatures: m.header.num_required_signatures,
        num_readonly_signed_accounts: m.header.num_readonly_signed_accounts,
        num_readonly_unsigned_accounts: m.header.num_readonly_unsigned_accounts,
    };
    let account_keys = m.account_keys.iter().map(|k| (*k).into()).collect();
    let instructions = m.instructions.iter().map(|i| WireInstruction {
        program_id_index: i.program_id_index, accounts: i.accounts.clone(), data: i.data.clone(),
    }).collect();
    let recent_blockhash = m.recent_blockhash.into();
    let message = WireMessage { header, account_keys, recent_blockhash, instructions };
    let signatures = transaction.signatures.iter().map(|s| (*s).into()).collect();
    bincode::serialize(&WireTransaction { signatures, message })
}

/// Whether two keys are the same, byte by byte.
fn same_key(left: &Pubkey, right: &Pubkey) -> (same: bool)
    ensures
        same == (*left == *right),
{
    let mut i: usize = 0;
    while i < 32
        invariant
            i <= 32,
            forall|k: int| 0 <= k < i ==> left@[k] == right@[k],
        decreases 32 - i,
    {
        if left[i] != right[i] {
            assert(left@[i as int] != right@[i as int]);
            return false;
        }
        i = i + 1;
    }
    assert(*left =~= *right);
    true
}

impl Message {
    /// Whether the header counts no more signers than there are keys.
    pub fn signers_are_listed(&self) -> (listed: bool)
        ensures
            listed == self@.signers_are_listed(),
    {
        self.header.num_required_signatures as usize <= self.account_keys.len()
    }

    /// Whether `key` is among the keys that must sign the message.
    pub fn requires_signer(&self, key: &Pubkey) -> (required: bool)
        requires
            self@.signers_are_listed(),
        ensures
            required == self@.requires_signer(*key),
    {
        let count: usize = self.header.num_required_signatures as usize;
        let mut i: usize = 0;
        while i < count
            invariant
                i <= count <= self.account_keys@.len(),
                count == self.header.num_required_signatures,
                forall|k: int| 0 <= k < i ==> #[trigger] self.account_keys@[k] != *key,
            decreases count - i,
        {
            if same_key(&self.account_keys[i], key) {
                assert(self@.account_keys[i as int] == *key);
                return true;
            }
            i = i + 1;
        }
        false
    }

    /// Whether every list of the message is short enough for the wire form.
    pub fn fits_wire(&self) -> (fits: bool)
        ensures
            fits == self@.fits_wire(),
    {
        let count: usize = self.instructions.len();
        if self.account_keys.len() > MAX_WIRE_LENGTH || count > MAX_WIRE_LENGTH {
            return false;
        }
        let mut i: usize = 0;
        while i < count
            invariant
                i <= count,
                count == self.instructions@.len(),
                forall|k: int|
                    0 <= k < i ==> (#[trigger] self@.instructions[k]).accounts.len()
                        <= MAX_WIRE_LENGTH && self@.instructions[k].data.len() <= MAX_WIRE_LENGTH,
            decreases count - i,
        {
            let instruction = &self.instructions[i];
            assert(self@.instructions[i as int] == instruction@);
            if instruction.accounts.len() > MAX_WIRE_LENGTH || instruction.data.len()
                > MAX_WIRE_LENGTH {
                return false;
            }
            i = i + 1;
        }
        true
    }
}

impl Transaction {
    /// Whether the signatures of the transaction are those of its keys.
    pub fn verify(&self) -> (verified: bool)
        requires
            self@.message.fits_wire(),
        ensures
            verified == transaction_verifies(self@),
    {
        verify_signatures(self)
    }

    /// The form in which the transaction is sent, unless one of its lists is too long for it.
    pub fn serialize(&self) -> (bytes: Result<Vec<u8>, bincode::Error>)
        ensures
            bytes is Ok <==> self@.fits_wire(),
            bytes matches Ok(b) ==> b@ == transaction_wire_form(self@),
    {
        serialize_transaction(self)
    }
}

} // verus!
