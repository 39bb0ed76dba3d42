//! Which endpoints are addressed: the selection in force and the one being edited.

use crate::bits::{self, bit_is_set};
use vstd::prelude::*;

verus! {

/// One bit per endpoint id.
pub type DestMask = u32;

/// Every endpoint.
pub const DEST_MASK_ALL: DestMask = 0xFFFF_FFFF;

/// No endpoint.
pub const DEST_MASK_NONE: DestMask = 0;

/// A selection in force (`active`) and one being edited (`pending`).
#[derive(Debug, Clone, Copy)]
pub struct Selector {
    pending: DestMask,
    active: DestMask,
}

impl Selector {
    /// The selection being edited.
    pub closed spec fn editing(self) -> DestMask {
        self.pending
    }

    /// The selection in force.
    pub closed spec fn in_force(self) -> DestMask {
        self.active
    }

    /// Nothing selected.
    pub fn new() -> (s: Selector)
        ensures
            s.editing() == DEST_MASK_NONE,
            s.in_force() == DEST_MASK_NONE,
    {
        Selector { pending: DEST_MASK_NONE, active: DEST_MASK_NONE }
    }

    /// Everything selected.
    pub fn broadcast_all() -> (s: Selector)
        ensures
            s.editing() == DEST_MASK_ALL,
            s.in_force() == DEST_MASK_ALL,
    {
        Selector { pending: DEST_MASK_ALL, active: DEST_MASK_ALL }
    }

    /// The selection being edited.
    pub fn pending(&self) -> (m: DestMask)
        ensures
            m == self.editing(),
    {
        self.pending
    }

    /// Replaces the selection being edited.
    pub fn set_pending(&mut self, mask: DestMask)
        ensures
            final(self).editing() == mask,
            final(self).in_force() == old(self).in_force(),
    {
        self.pending = mask;
    }

    /// Flips one endpoint in the selection being edited; ids past the mask change
    /// nothing.
    pub fn toggle_pending(&mut self, receiver_id: u8)
        ensures
            final(self).in_force() == old(self).in_force(),
            receiver_id >= 32 ==> final(self).editing() == old(self).editing(),
            receiver_id < 32 ==> final(self).editing() == old(self).editing() ^ bits::one_bit(receiver_id as int),
            receiver_id < 32 ==> final(self).editing() == old(self).editing() ^ (1u32 << (receiver_id as u32)),
            forall|i: int| #[trigger]
                bits::has_bit(final(self).editing(), i) == (if i == receiver_id && receiver_id < 32 {
                    !bits::has_bit(old(self).editing(), i)
                } else {
                    bits::has_bit(old(self).editing(), i)
                }),
    {
        if receiver_id >= 32 {
            return;
        }
        proof {
            bits::lemma_flip_bit(self.pending, receiver_id as int);
        }
        self.pending = self.pending ^ (1u32 << (receiver_id as u32));
    }

    /// The selection in force.
    pub fn active(&self) -> (m: DestMask)
        ensures
            m == self.in_force(),
    {
        self.active
    }

    /// Puts a selection in force at once; the edited selection follows it.
    pub fn set_active(&mut self, mask: DestMask)
        ensures
            final(self).in_force() == mask,
            final(self).editing() == mask,
    {
        self.active = mask;
        self.pending = mask;
    }

    /// Puts the edited selection in force.
    pub fn commit(&mut self)
        ensures
            final(self).in_force() == old(self).editing(),
            final(self).editing() == old(self).editing(),
    {
        self.active = self.pending;
    }

    /// Drops the edits.
    pub fn cancel(&mut self)
        ensures
            final(self).editing() == old(self).in_force(),
            final(self).in_force() == old(self).in_force(),
    {
        self.pending = self.active;
    }

    /// Whether an endpoint is addressed by the selection in force.
    pub fn is_active_selected(&self, receiver_id: u8) -> (r: bool)
        ensures
            r == bits::has_bit(self.in_force(), receiver_id as int),
            r == (receiver_id < 32 && self.in_force() & (1u32 << (receiver_id as u32)) != 0),
    {
        bit_is_set(self.active, receiver_id)
    }

    /// Whether there are edits that are not in force.
    pub fn is_dirty(&self) -> (r: bool)
        ensures
            r == (self.editing() != self.in_force()),
    {
        self.pending != self.active
    }
}

impl Default for Selector {
    fn default() -> (s: Selector)
        ensures
            s.editing() == DEST_MASK_NONE,
            s.in_force() == DEST_MASK_NONE,
    {
        Selector::new()
    }
}

/// Toggling an endpoint twice gives back the selection.
pub proof fn lemma_toggle_twice(mask: DestMask, receiver_id: int)
    requires
        0 <= receiver_id < 32,
    ensures
        (mask ^ bits::one_bit(receiver_id)) ^ bits::one_bit(receiver_id) == mask,
{
    bits::lemma_flip_bit(mask, receiver_id);
}

} // verus!
