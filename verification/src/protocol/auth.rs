//! Key ids and the session nonce.

use vstd::prelude::*;

verus! {

/// Number of key slots a device holds.
pub const KEY_SLOTS: usize = 4;

/// Largest raw key id the 4-bit wire field can carry.
pub const KEY_ID_MAX: u8 = 15;

/// Key slot in use after boot.
pub const DEFAULT_KEY_ID: u8 = 0;

/// Whether a key slot holds a secret. Slots 0 and 1 do; the others are retired.
pub open spec fn slot_has_secret(slot: int) -> bool {
    slot == 0 || slot == 1
}

/// Whether a key slot holds a secret.
pub fn slot_enabled(slot: u8) -> (enabled: bool)
    ensures
        enabled == slot_has_secret(slot as int),
{
    slot == 0 || slot == 1
}

/// A raw key id that does not fit the wire field.
#[derive(Debug, Clone, Copy, PartialEq, Eq, Structural)]
pub struct InvalidKeyId(pub u8);

/// Key id carried by commands and responses.
#[derive(Debug, Clone, Copy, PartialEq, Eq, Structural)]
pub struct KeyId {
    pub raw: u8,
}

impl KeyId {
    /// The id names one of this device's slots.
    pub open spec fn in_slots(self) -> bool {
        self.raw < KEY_SLOTS
    }

    /// The key id in use after boot.
    pub open spec fn spec_default() -> KeyId {
        KeyId { raw: DEFAULT_KEY_ID }
    }

    /// Checks a raw id against the wire field.
    pub fn new(raw: u8) -> (r: Result<KeyId, InvalidKeyId>)
        ensures
            r == (if raw <= KEY_ID_MAX {
                Ok::<KeyId, InvalidKeyId>(KeyId { raw })
            } else {
                Err(InvalidKeyId(raw))
            }),
    {
        if raw <= KEY_ID_MAX {
            Ok(KeyId { raw })
        } else {
            Err(InvalidKeyId(raw))
        }
    }

    /// The raw id.
    pub fn as_u8(&self) -> (raw: u8)
        ensures
            raw == self.raw,
    {
        self.raw
    }

    /// Whether the id names one of this device's slots.
    pub fn is_slot_supported(&self) -> (r: bool)
        ensures
            r == self.in_slots(),
    {
        (self.raw as usize) < KEY_SLOTS
    }
}

impl Default for KeyId {
    fn default() -> (k: KeyId)
        ensures
            k == KeyId::spec_default(),
    {
        KeyId { raw: DEFAULT_KEY_ID }
    }
}

/// The nonce that prefixes every signature of the running session.
/// Zero is reserved for "not yet initialised".
#[derive(Debug, Clone, Copy, PartialEq, Eq, Structural)]
pub struct SessionNonce {
    pub value: u32,
}

impl SessionNonce {
    /// What a seed becomes: zero is raised to one, the reserved value is never
    /// used as a nonce.
    pub open spec fn from_seed(seed: u32) -> u32 {
        if seed == 0 {
            1
        } else {
            seed
        }
    }

    /// No session yet.
    pub fn new() -> (s: SessionNonce)
        ensures
            s.value == 0,
    {
        SessionNonce { value: 0 }
    }

    /// Adopts a seed as the session nonce.
    pub fn init_session_nonce(&mut self, seed: u32)
        ensures
            final(self).value == SessionNonce::from_seed(seed),
            final(self).value != 0,
    {
        self.value = if seed == 0 {
            1
        } else {
            seed
        };
    }

    /// The current nonce, zero before the first initialisation.
    pub fn session_nonce(&self) -> (nonce: u32)
        ensures
            nonce == self.value,
    {
        self.value
    }
}

/// A seed is the nonce, except that zero, which stands for no session, becomes one: no
/// session ever has the nonce zero, and any two other seeds give different nonces.
pub proof fn lemma_seed_is_the_nonce(seed: u32)
    ensures
        seed != 0 ==> SessionNonce::from_seed(seed) == seed,
        seed == 0 ==> SessionNonce::from_seed(seed) == 1,
{
}

/// Exactly the slots 0 and 1 can sign; a device has the slots 0 to 3, and starts with
/// slot 0.
pub proof fn lemma_two_of_four_slots_can_sign(key_id: KeyId)
    ensures
        slot_has_secret(key_id.raw as int) <==> key_id.raw <= 1,
        key_id.in_slots() <==> key_id.raw <= 3,
        slot_has_secret(key_id.raw as int) ==> key_id.in_slots(),
        KeyId::spec_default().raw == 0,
{
}

impl Default for SessionNonce {
    fn default() -> (s: SessionNonce)
        ensures
            s.value == 0,
    {
        SessionNonce::new()
    }
}

} // verus!
