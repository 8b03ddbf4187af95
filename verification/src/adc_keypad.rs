//! Voltage-to-keymask decoding with deduplication, and the keymask-bit
//! adapter.
//!
//! A keypad wired as a resistor ladder reads as one analog voltage per
//! combination of pressed keys. A caller-supplied [`KeyDecoder`] maps
//! each stabilized voltage to a 32-bit keymask (bit `i` set when logical
//! key `i` is asserted). The decode loop publishes a mask only when it
//! differs from the one last published — [`MaskDedup`] is that gate — so
//! downstream adapters never re-evaluate an unchanged sample.
//!
//! [`KeypadButton`] watches one bit of the published masks. Because bus
//! delivery starts at subscription time, the adapter caches the last mask
//! it saw: a key already held when the adapter subscribed is answered
//! from the cache instead of being missed.

use vstd::prelude::*;

verus! {

/// A pure, caller-supplied mapping from a stabilized analog value to the
/// 32-bit keymask that value represents.
pub trait KeyDecoder {
    /// The keymask encoded by `value`.
    fn decode(&self, value: u16) -> u32;
}

/// Publishes-only-changes gate of the decode loop: remembers the last
/// published keymask and lets a new one through exactly when it differs.
///
/// The initial remembered mask is `u32::MAX`, an impossible first decode
/// result to match in practice, so the first real mask is published.
pub struct MaskDedup {
    last_mask: u32,
}

impl MaskDedup {
    /// The mask last published.
    pub closed spec fn last_mask(&self) -> u32 {
        self.last_mask
    }

    /// A fresh gate that lets the first mask through (unless it is
    /// `u32::MAX`).
    pub fn new() -> (d: MaskDedup)
        ensures
            d.last_mask() == u32::MAX,
    {
        MaskDedup { last_mask: u32::MAX }
    }

    /// Passes `mask` through exactly when it differs from the last one
    /// let through, and remembers it in that case.
    pub fn update(&mut self, mask: u32) -> (r: Option<u32>)
        ensures
            mask != old(self).last_mask() ==> r == Some(mask) && final(self).last_mask()
                == mask,
            mask == old(self).last_mask() ==> r is None && final(self).last_mask() == old(
                self,
            ).last_mask(),
    {
        if mask != self.last_mask {
            self.last_mask = mask;
            Some(mask)
        } else {
            None
        }
    }
}

/// The keymask-bit adapter: a logical button bound to one key index of
/// the published keymasks, with a cached last-known mask.
pub struct KeypadButton {
    key_mask: u32,
    last_known_mask: u32,
}

impl KeypadButton {
    /// The single-bit mask of this adapter's key.
    pub closed spec fn key_mask(&self) -> u32 {
        self.key_mask
    }

    /// The last full keymask this adapter has seen (zero until one
    /// arrives).
    pub closed spec fn last_known_mask(&self) -> u32 {
        self.last_known_mask
    }

    /// An adapter for logical key `key_id`. Key indices address single
    /// bits of a 32-bit mask, so an index of 32 or more is rejected
    /// here, at construction time.
    pub fn new(key_id: u8) -> (b: KeypadButton)
        requires
            key_id < 32,
        ensures
            b.key_mask() == 1u32 << key_id,
            b.last_known_mask() == 0,
    {
        KeypadButton { key_mask: 1u32 << key_id, last_known_mask: 0 }
    }

    /// Records a newly published keymask in the cache.
    pub fn observe(&mut self, mask: u32)
        ensures
            final(self).last_known_mask() == mask,
            final(self).key_mask() == old(self).key_mask(),
    {
        self.last_known_mask = mask;
    }

    /// Does the cached mask say this adapter's key is held? Checked
    /// before suspending on the bus, so a key already held at
    /// subscription time is seen immediately.
    pub fn is_pressed(&self) -> (r: bool)
        ensures
            r == ((self.last_known_mask() & self.key_mask()) != 0),
    {
        (self.last_known_mask & self.key_mask) != 0
    }
}

} // verus!
