//! A vote on the tower's stack and the range of slots it locks.
use vstd::arithmetic::power2::pow2;
use vstd::prelude::*;

verus! {

/// A slot number of the ledger.
pub type Slot = u64;

/// The number of votes that a tower holds before its oldest one becomes the root.
pub const MAX_LOCKOUT_HISTORY: usize = 31;

/// A vote for `slot` together with the number of confirmations it has gathered.
#[derive(Clone, Copy, Debug, PartialEq, Eq, Structural)]
pub struct Lockout {
    pub slot: Slot,
    pub confirmation_count: u32,
}

/// The number of slots that a vote with `confirmation_count` confirmations locks: two to the
/// power of its confirmations, of which at most `MAX_LOCKOUT_HISTORY` count.
pub open spec fn lockout_span(confirmation_count: u32) -> nat {
    pow2(
        if confirmation_count < MAX_LOCKOUT_HISTORY {
            confirmation_count as nat
        } else {
            MAX_LOCKOUT_HISTORY as nat
        },
    )
}

impl Lockout {
    /// Whether the vote still binds a voter at `slot`. Slot numbers end at `u64::MAX`, so a vote
    /// whose range runs past that binds at every slot.
    pub open spec fn binds_at(self, slot: Slot) -> bool {
        slot <= self.slot + lockout_span(self.confirmation_count)
    }

    /// A fresh vote for `slot`, with one confirmation.
    pub fn new(slot: Slot) -> (lockout: Self)
        ensures
            lockout == (Lockout { slot, confirmation_count: 1 }),
    {
        Self::new_with_confirmation_count(slot, 1)
    }

    pub fn new_with_confirmation_count(slot: Slot, confirmation_count: u32) -> (lockout: Self)
        ensures
            lockout == (Lockout { slot, confirmation_count }),
    {
        Lockout { slot, confirmation_count }
    }

    /// The number of slots for which this vote is locked.
    pub fn lockout(&self) -> (span: u64)
        ensures
            span == lockout_span(self.confirmation_count),
            span <= 0x8000_0000,
    {
        let exponent: u64 = if self.confirmation_count < MAX_LOCKOUT_HISTORY as u32 {
            self.confirmation_count as u64
        } else {
            MAX_LOCKOUT_HISTORY as u64
        };
        proof {
            vstd::bits::lemma_u64_pow2_no_overflow(exponent as nat);
            vstd::bits::lemma_u64_shl_is_mul(1, exponent);
            vstd::arithmetic::power2::lemma2_to64();
            if exponent < 31 {
                vstd::arithmetic::power2::lemma_pow2_strictly_increases(exponent as nat, 31);
            }
        }
        1u64 << exponent
    }

    /// The last slot at which this vote is still locked out.
    pub fn last_locked_out_slot(&self) -> (slot: Slot)
        ensures
            slot == if self.slot + lockout_span(self.confirmation_count) <= u64::MAX {
                self.slot + lockout_span(self.confirmation_count)
            } else {
                u64::MAX as int
            },
    {
        self.slot.saturating_add(self.lockout())
    }

    /// Whether the vote still binds a voter at `slot`.
    pub fn is_locked_out_at_slot(&self, slot: Slot) -> (locked_out: bool)
        ensures
            locked_out == self.binds_at(slot),
    {
        self.last_locked_out_slot() >= slot
    }

    pub fn slot(&self) -> (slot: Slot)
        ensures
            slot == self.slot,
    {
        self.slot
    }

    pub fn confirmation_count(&self) -> (count: u32)
        ensures
            count == self.confirmation_count,
    {
        self.confirmation_count
    }

    /// Adds `by` confirmations, stopping at `u32::MAX`.
    pub fn increase_confirmation_count(&mut self, by: u32)
        ensures
            final(self).slot == old(self).slot,
            final(self).confirmation_count == if old(self).confirmation_count + by <= u32::MAX {
                old(self).confirmation_count + by
            } else {
                u32::MAX as int
            },
    {
        self.confirmation_count = self.confirmation_count.saturating_add(by);
    }
}

} // verus!
