//! The active key and the outgoing sequence numbers of every key slot.

use crate::protocol::auth::{self, slot_enabled, KeyId, DEFAULT_KEY_ID, KEY_SLOTS};
use crate::protocol::KEY_ID_MAX;
use vstd::prelude::*;

verus! {

/// The slot that stands in when the stored key id is out of range.
const FALLBACK_SLOT: u8 = DEFAULT_KEY_ID;

/// Why a key could not be activated.
#[derive(Debug, Clone, Copy, PartialEq, Eq, Structural)]
pub enum KeyringError {
    /// The slot is past `KEY_SLOTS`.
    SlotOutOfRange(u8),
    /// The slot holds no secret.
    SlotDisabled(u8),
}

/// The number after `count`: one more, with zero left out when the counter wraps.
pub open spec fn next_number(count: u32) -> u32 {
    if count == u32::MAX {
        1
    } else {
        (count + 1) as u32
    }
}

/// The active key id and one sequence counter per slot. Every slot has its own
/// sequence space.
#[derive(Debug, Clone, Copy)]
pub struct Keyring {
    active: u8,
    tx_counters: [u32; KEY_SLOTS],
}

impl Keyring {
    /// The key that signs outgoing messages.
    pub closed spec fn key(self) -> KeyId {
        if self.active <= KEY_ID_MAX {
            KeyId { raw: self.active }
        } else {
            KeyId { raw: FALLBACK_SLOT }
        }
    }

    /// The slot whose counter numbers outgoing commands.
    pub closed spec fn slot(self) -> int {
        if self.active < KEY_SLOTS {
            self.active as int
        } else {
            FALLBACK_SLOT as int
        }
    }

    /// The last number handed out for each slot.
    pub closed spec fn counters(self) -> Seq<u32> {
        self.tx_counters@
    }

    /// The active key is one of the slots that hold a secret, and commands are
    /// numbered from that slot.
    pub open spec fn wf(self) -> bool {
        &&& self.counters().len() == KEY_SLOTS
        &&& self.key().in_slots()
        &&& auth::slot_has_secret(self.key().raw as int)
        &&& self.slot() == self.key().raw
    }

    /// The default key active, no number handed out yet.
    pub fn new() -> (k: Keyring)
        ensures
            k.wf(),
            k.key() == KeyId::spec_default(),
            forall|i: int| 0 <= i < KEY_SLOTS ==> #[trigger] k.counters()[i] == 0,
    {
        Keyring { active: DEFAULT_KEY_ID, tx_counters: [0u32, 0u32, 0u32, 0u32] }
    }

    /// The key that signs outgoing messages.
    pub fn active(&self) -> (k: KeyId)
        ensures
            k == self.key(),
    {
        match KeyId::new(self.active) {
            Ok(k) => k,
            Err(_) => KeyId { raw: FALLBACK_SLOT },
        }
    }

    /// Activates a key. Counters are kept, so going back to a slot continues its
    /// numbers instead of repeating them.
    pub fn rotate_to(&mut self, new_id: KeyId) -> (r: Result<(), KeyringError>)
        ensures
            r == (if !new_id.in_slots() {
                Err::<(), KeyringError>(KeyringError::SlotOutOfRange(new_id.raw))
            } else if !auth::slot_has_secret(new_id.raw as int) {
                Err(KeyringError::SlotDisabled(new_id.raw))
            } else {
                Ok(())
            }),
            r is Ok ==> final(self).key() == new_id && final(self).slot() == new_id.raw,
            r is Err ==> *final(self) == *old(self),
            final(self).counters() == old(self).counters(),
            old(self).wf() ==> final(self).wf(),
    {
        let raw: u8 = new_id.as_u8();
        if !new_id.is_slot_supported() {
            return Err(KeyringError::SlotOutOfRange(raw));
        }
        if !slot_enabled(raw) {
            return Err(KeyringError::SlotDisabled(raw));
        }
        self.active = raw;
        Ok(())
    }

    /// Hands out the next number of the active slot.
    pub fn next_seq(&mut self) -> (seq: u32)
        ensures
            seq == next_number(old(self).counters()[old(self).slot()]),
            seq >= 1,
            final(self).counters() == old(self).counters().update(old(self).slot(), seq),
            final(self).key() == old(self).key(),
            final(self).slot() == old(self).slot(),
            old(self).wf() ==> final(self).wf(),
    {
        let idx: usize = if (self.active as usize) < KEY_SLOTS {
            self.active as usize
        } else {
            FALLBACK_SLOT as usize
        };
        let seq: u32 = Keyring::bump_nonzero(self.tx_counters[idx]);
        self.tx_counters[idx] = seq;
        seq
    }

    /// Hands out the next number of a given slot; zero for a slot that does not
    /// exist, which hands out nothing.
    pub fn next_seq_for(&mut self, key_id: KeyId) -> (seq: u32)
        ensures
            key_id.in_slots() ==> seq == next_number(old(self).counters()[key_id.raw as int]) && seq >= 1
                && final(self).counters() == old(self).counters().update(key_id.raw as int, seq),
            !key_id.in_slots() ==> seq == 0 && *final(self) == *old(self),
            final(self).key() == old(self).key(),
            final(self).slot() == old(self).slot(),
            old(self).wf() ==> final(self).wf(),
    {
        let idx: usize = key_id.as_u8() as usize;
        if idx >= KEY_SLOTS {
            return 0;
        }
        let seq: u32 = Keyring::bump_nonzero(self.tx_counters[idx]);
        self.tx_counters[idx] = seq;
        seq
    }

    /// The number after `counter`, skipping the reserved zero.
    pub fn bump_nonzero(counter: u32) -> (seq: u32)
        ensures
            seq == next_number(counter),
            seq >= 1,
    {
        let seq: u32 = counter.wrapping_add(1);
        if seq == 0 {
            seq.wrapping_add(1)
        } else {
            seq
        }
    }

    /// The last number handed out for a slot, zero for a slot that does not exist.
    pub fn peek_counter(&self, key_id: KeyId) -> (count: u32)
        ensures
            count == (if key_id.in_slots() {
                self.counters()[key_id.raw as int]
            } else {
                0
            }),
    {
        let idx: usize = key_id.as_u8() as usize;
        if idx >= KEY_SLOTS {
            return 0;
        }
        self.tx_counters[idx]
    }

    /// Puts a slot's counter at a chosen value; a slot that does not exist is
    /// left alone.
    pub fn force_counter_for_test(&mut self, key_id: KeyId, value: u32)
        ensures
            final(self).counters() == (if key_id.in_slots() {
                old(self).counters().update(key_id.raw as int, value)
            } else {
                old(self).counters()
            }),
            final(self).key() == old(self).key(),
            final(self).slot() == old(self).slot(),
            old(self).wf() ==> final(self).wf(),
    {
        let idx: usize = key_id.as_u8() as usize;
        if idx < KEY_SLOTS {
            self.tx_counters[idx] = value;
        }
    }
}

impl Default for Keyring {
    fn default() -> (k: Keyring)
        ensures
            k.wf(),
            k.key() == KeyId::spec_default(),
            forall|i: int| 0 <= i < KEY_SLOTS ==> #[trigger] k.counters()[i] == 0,
    {
        Keyring::new()
    }
}

/// Numbers go up by one. After the largest comes one: zero is never handed out, and two
/// numbers in a row always differ.
pub proof fn lemma_numbers_go_up_by_one(count: u32)
    ensures
        count < 0xFFFF_FFFF ==> next_number(count) == count + 1,
        count == 0xFFFF_FFFF ==> next_number(count) == 1,
        next_number(count) != 0,
        next_number(count) != count,
{
}

/// The `n`-th number handed out after `count`.
pub open spec fn number_after(count: u32, n: nat) -> u32
    decreases n,
{
    if n == 0 {
        count
    } else {
        next_number(number_after(count, (n - 1) as nat))
    }
}

/// From a fresh counter the numbers handed out are 1, 2, 3, ... without a repeat
/// until the 32-bit space is used up.
pub proof fn lemma_fresh_numbers_ascend(n: nat)
    requires
        n <= u32::MAX,
    ensures
        number_after(0, n) == n,
    decreases n,
{
    if n > 0 {
        lemma_fresh_numbers_ascend((n - 1) as nat);
    }
}

} // verus!
