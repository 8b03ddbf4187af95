//! Timing configuration for the click / long-press state machine.

use vstd::prelude::*;

verus! {

/// The four durations that drive the button state machine, in ticks of the
/// same monotonic clock that timestamps edges (the defaults read one tick
/// as one microsecond).
///
/// A configuration is an immutable snapshot held by a [`crate::engine::Button`];
/// it can be replaced wholesale at runtime and takes effect from the next
/// timer armed. Any combination of values is valid.
#[derive(Debug, Clone, Copy, PartialEq, Eq, Structural)]
pub struct ButtonConfig {
    /// How long a new level must persist after an edge before it is trusted.
    pub debounce: u64,
    /// Longest silence after a confirmed release that still lets a further
    /// press join the same click sequence.
    pub multi_click_window: u64,
    /// How long a confirmed press must be held to become a long press.
    pub long_press_time: u64,
    /// Cadence of the repeated hold event while a long press persists.
    pub long_press_hold_interval: u64,
}

impl Default for ButtonConfig {
    /// Defaults: 20 ms debounce, 250 ms multi-click window, 500 ms
    /// long-press threshold, 100 ms hold cadence (in microsecond ticks).
    fn default() -> (c: Self)
        ensures
            c.debounce == 20_000,
            c.multi_click_window == 250_000,
            c.long_press_time == 500_000,
            c.long_press_hold_interval == 100_000,
    {
        ButtonConfig {
            debounce: 20_000,
            multi_click_window: 250_000,
            long_press_time: 500_000,
            long_press_hold_interval: 100_000,
        }
    }
}

} // verus!
