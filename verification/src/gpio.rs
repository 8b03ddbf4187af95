//! Active-level selection for directly wired pins.
//!
//! A button on a plain digital input is "pressed" at a wiring-dependent
//! level: grounded through the switch with a pull-up resistor (active
//! low), or tied to the supply with a pull-down (active high).
//! [`ActiveLevel`] records that choice, and its methods give the level a
//! pin driver must wait for on each side of the race.

use vstd::prelude::*;

verus! {

/// The electrical level at which a directly wired button reads as pressed.
#[derive(Debug, Clone, Copy, PartialEq, Eq, Structural)]
pub enum ActiveLevel {
    /// Pressed pulls the pin low (pull-up wiring).
    Low,
    /// Pressed pulls the pin high (pull-down wiring).
    High,
}

impl ActiveLevel {
    /// The pin level (`true` for high) that means pressed.
    pub fn pressed_is_high(&self) -> (r: bool)
        ensures
            r == (*self == ActiveLevel::High),
    {
        match self {
            ActiveLevel::Low => false,
            ActiveLevel::High => true,
        }
    }

    /// The pin level (`true` for high) that means released.
    pub fn released_is_high(&self) -> (r: bool)
        ensures
            r == (*self == ActiveLevel::Low),
    {
        match self {
            ActiveLevel::Low => true,
            ActiveLevel::High => false,
        }
    }
}

} // verus!
