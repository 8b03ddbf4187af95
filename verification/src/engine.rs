//! The click / debounce / long-press state machine.
//!
//! A [`Button`] owns a [`ButtonState`] and a [`crate::config::ButtonConfig`].
//! In every state but [`ButtonState::Idle`] the machine races one edge wait
//! (press or release, see [`wait_kind_of`]) against one timer (see
//! [`deadline_of`]); whichever resolves first is reported as a
//! [`RaceWinner`] and fed to [`Button::step`], which applies exactly one
//! transition of the table below and may emit one [`ButtonEvent`].
//!
//! The caller (an async event loop, an interrupt handler, a test harness)
//! owns the clock and the edge source: it waits for whichever of the two
//! branches resolves first, abandons the loser, and calls `step` with the
//! winner and the current tick count. Both branches of every race are pure
//! observations, so abandoning the loser has no side effect.

use vstd::prelude::*;

use crate::config::ButtonConfig;

verus! {

/// A high-level interaction event produced by the state machine.
#[derive(Debug, Clone, Copy, PartialEq, Eq, Structural)]
pub enum ButtonEvent {
    /// One press/release cycle, finalized after the multi-click window.
    Click,
    /// Two cycles inside one multi-click window.
    DoubleClick,
    /// `count` cycles (three or more) inside one multi-click window.
    MultipleClick { count: u8 },
    /// A confirmed press has been held past the long-press threshold.
    LongPressStart,
    /// Emitted once per hold interval while the long press persists.
    LongPressHold,
    /// The long press ended; no click follows it.
    LongPressRelease,
}

/// The engine's state, tagged with the timestamps that arm its timers.
///
/// | State | entered when | on edge | on timeout |
/// |---|---|---|---|
/// | `Idle` | start, or after a finalized sequence | new press: `PressDebouncing { count: 0 }` | (no timer) |
/// | `PressDebouncing` | a press edge was seen | release inside the debounce window is a bounce: back to `Idle` | press confirmed: `Pressed` with `count + 1` |
/// | `Pressed` | a press was confirmed | release: `ReleaseDebouncing` | threshold reached: `LongPress`, emit `LongPressStart` |
/// | `ReleaseDebouncing` | a release edge was seen | press inside the debounce window is a bounce: back to `Pressed`, count kept | release confirmed: `WaitingForMultiClick` |
/// | `WaitingForMultiClick` | a release was confirmed | press inside the window: `PressDebouncing`, count carried | window over: `Idle`, emit the click event for `count` |
/// | `LongPress` | threshold reached | release: `Idle`, emit `LongPressRelease` | interval over: emit `LongPressHold`, re-arm |
#[derive(Debug, Clone, Copy, PartialEq, Eq, Structural)]
pub enum ButtonState {
    /// Released, no click sequence pending.
    Idle,
    /// A press edge at `start_time` is waiting out the debounce window;
    /// `count` confirmed presses precede it in the current sequence.
    PressDebouncing { count: u8, start_time: u64 },
    /// The press was confirmed at `start_time`; `count` includes it.
    Pressed { start_time: u64, count: u8 },
    /// A release edge at `release_start` is waiting out the debounce window;
    /// `press_start` is kept in case the release turns out to be a bounce.
    ReleaseDebouncing { count: u8, press_start: u64, release_start: u64 },
    /// The release was confirmed; a further press until
    /// `last_release + multi_click_window` joins the sequence.
    WaitingForMultiClick { count: u8, last_release: u64 },
    /// Held past the long-press threshold; the next hold event is due at
    /// `start_time + long_press_hold_interval`.
    LongPress { start_time: u64 },
}

/// The kind of edge the engine waits for in a given state.
#[derive(Debug, Clone, Copy, PartialEq, Eq, Structural)]
pub enum WaitKind {
    /// Waiting for the signal to become pressed.
    Press,
    /// Waiting for the signal to become released.
    Release,
}

/// Which branch of a state's race resolved first.
#[derive(Debug, Clone, Copy, PartialEq, Eq, Structural)]
pub enum RaceWinner {
    /// The awaited edge arrived before the timer deadline.
    Edge,
    /// The timer deadline passed before the awaited edge arrived.
    Timer,
}

/// The edge awaited in state `s`: the opposite of the level that brought
/// the machine into `s`.
pub open spec fn wait_kind_of(s: ButtonState) -> WaitKind {
    match s {
        ButtonState::Idle => WaitKind::Press,
        ButtonState::PressDebouncing { .. } => WaitKind::Release,
        ButtonState::Pressed { .. } => WaitKind::Release,
        ButtonState::ReleaseDebouncing { .. } => WaitKind::Press,
        ButtonState::WaitingForMultiClick { .. } => WaitKind::Press,
        ButtonState::LongPress { .. } => WaitKind::Release,
    }
}

/// The timer deadline armed in state `s` under configuration `cfg`, if any.
///
/// Additions saturate: a deadline clamped to `u64::MAX` lies at the end of
/// the clock's range and in practice never fires before the awaited edge.
pub open spec fn deadline_of(s: ButtonState, cfg: ButtonConfig) -> Option<u64> {
    match s {
        ButtonState::Idle => None,
        ButtonState::PressDebouncing { start_time, .. } => Some(
            start_time.saturating_add(cfg.debounce),
        ),
        ButtonState::Pressed { start_time, .. } => Some(
            start_time.saturating_add(cfg.long_press_time),
        ),
        ButtonState::ReleaseDebouncing { release_start, .. } => Some(
            release_start.saturating_add(cfg.debounce),
        ),
        ButtonState::WaitingForMultiClick { last_release, .. } => Some(
            last_release.saturating_add(cfg.multi_click_window),
        ),
        ButtonState::LongPress { start_time } => Some(
            start_time.saturating_add(cfg.long_press_hold_interval),
        ),
    }
}

/// The click event finalized for a sequence of `count` confirmed presses:
/// none for zero (kept for robustness; no transition of this machine
/// reaches the multi-click wait with a zero count), `Click` for one,
/// `DoubleClick` for two, `MultipleClick` beyond.
pub open spec fn click_event_for(count: u8) -> Option<ButtonEvent> {
    if count == 0 {
        None
    } else if count == 1 {
        Some(ButtonEvent::Click)
    } else if count == 2 {
        Some(ButtonEvent::DoubleClick)
    } else {
        Some(ButtonEvent::MultipleClick { count })
    }
}

/// One transition of the state machine: from state `s`, the race was won by
/// `winner` at tick `now`. Returns the successor state and the event
/// emitted, if any.
///
/// `now` is read only where the original edge or confirmation instant must
/// be recorded (a press edge, a confirmed press, a release edge); every
/// other timestamp is carried over from `s` or derived from `cfg`. The
/// press count saturates at `u8::MAX` instead of wrapping.
pub open spec fn step_of(
    s: ButtonState,
    cfg: ButtonConfig,
    winner: RaceWinner,
    now: u64,
) -> (ButtonState, Option<ButtonEvent>) {
    match (s, winner) {
        (ButtonState::Idle, RaceWinner::Edge) => (
            ButtonState::PressDebouncing { count: 0, start_time: now },
            None,
        ),
        // No timer is armed in Idle; a spurious timer wake changes nothing.
        (ButtonState::Idle, RaceWinner::Timer) => (s, None),
        // A release inside the debounce window: the press was a bounce and
        // the whole pending sequence is discarded.
        (ButtonState::PressDebouncing { .. }, RaceWinner::Edge) => (ButtonState::Idle, None),
        (ButtonState::PressDebouncing { count, .. }, RaceWinner::Timer) => (
            ButtonState::Pressed { start_time: now, count: count.saturating_add(1) },
            None,
        ),
        (ButtonState::Pressed { start_time, count }, RaceWinner::Edge) => (
            ButtonState::ReleaseDebouncing {
                count,
                press_start: start_time,
                release_start: now,
            },
            None,
        ),
        (ButtonState::Pressed { start_time, .. }, RaceWinner::Timer) => (
            ButtonState::LongPress { start_time },
            Some(ButtonEvent::LongPressStart),
        ),
        // A press inside the debounce window: the release was a bounce; the
        // press goes on under its original start time and count.
        (ButtonState::ReleaseDebouncing { count, press_start, .. }, RaceWinner::Edge) => (
            ButtonState::Pressed { start_time: press_start, count },
            None,
        ),
        (ButtonState::ReleaseDebouncing { count, release_start, .. }, RaceWinner::Timer) => (
            ButtonState::WaitingForMultiClick { count, last_release: release_start },
            None,
        ),
        // A further press inside the window: the sequence continues, and the
        // new press is debounced exactly like the first one.
        (ButtonState::WaitingForMultiClick { count, .. }, RaceWinner::Edge) => (
            ButtonState::PressDebouncing { count, start_time: now },
            None,
        ),
        (ButtonState::WaitingForMultiClick { count, .. }, RaceWinner::Timer) => (
            ButtonState::Idle,
            click_event_for(count),
        ),
        (ButtonState::LongPress { .. }, RaceWinner::Edge) => (
            ButtonState::Idle,
            Some(ButtonEvent::LongPressRelease),
        ),
        (ButtonState::LongPress { start_time }, RaceWinner::Timer) => (
            ButtonState::LongPress {
                start_time: start_time.saturating_add(cfg.long_press_hold_interval),
            },
            Some(ButtonEvent::LongPressHold),
        ),
    }
}

/// The state machine of one logical button.
///
/// The caller drives it: ask [`Button::wait_kind`] which edge to await and
/// [`Button::deadline`] which timer to arm, race the two, and report the
/// winner through [`Button::step`]. Looping until `step` returns an event
/// is exactly the behaviour of a blocking `next_event`.
pub struct Button {
    config: ButtonConfig,
    state: ButtonState,
}

impl Button {
    /// The current state.
    pub closed spec fn state(&self) -> ButtonState {
        self.state
    }

    /// The active configuration.
    pub closed spec fn config(&self) -> ButtonConfig {
        self.config
    }

    /// A new button, idle, with the given timing configuration.
    pub fn new(config: ButtonConfig) -> (b: Button)
        ensures
            b.state() == ButtonState::Idle,
            b.config() == config,
    {
        Button { config, state: ButtonState::Idle }
    }

    /// Replaces the timing configuration; effective from the next timer
    /// armed. The current state is kept.
    pub fn set_config(&mut self, new_config: ButtonConfig)
        ensures
            final(self).config() == new_config,
            final(self).state() == old(self).state(),
    {
        self.config = new_config;
    }

    /// Forces the machine back to `Idle`, discarding in-flight timing.
    pub fn reset(&mut self)
        ensures
            final(self).state() == ButtonState::Idle,
            final(self).config() == old(self).config(),
    {
        self.state = ButtonState::Idle;
    }

    /// The kind of edge to await in the current state.
    pub fn wait_kind(&self) -> (k: WaitKind)
        ensures
            k == wait_kind_of(self.state()),
    {
        match self.state {
            ButtonState::Idle => WaitKind::Press,
            ButtonState::PressDebouncing { .. } => WaitKind::Release,
            ButtonState::Pressed { .. } => WaitKind::Release,
            ButtonState::ReleaseDebouncing { .. } => WaitKind::Press,
            ButtonState::WaitingForMultiClick { .. } => WaitKind::Press,
            ButtonState::LongPress { .. } => WaitKind::Release,
        }
    }

    /// The timer deadline to arm in the current state, if any: `None`
    /// exactly in `Idle`.
    pub fn deadline(&self) -> (d: Option<u64>)
        ensures
            d == deadline_of(self.state(), self.config()),
    {
        match self.state {
            ButtonState::Idle => None,
            ButtonState::PressDebouncing { start_time, .. } => Some(
                start_time.saturating_add(self.config.debounce),
            ),
            ButtonState::Pressed { start_time, .. } => Some(
                start_time.saturating_add(self.config.long_press_time),
            ),
            ButtonState::ReleaseDebouncing { release_start, .. } => Some(
                release_start.saturating_add(self.config.debounce),
            ),
            ButtonState::WaitingForMultiClick { last_release, .. } => Some(
                last_release.saturating_add(self.config.multi_click_window),
            ),
            ButtonState::LongPress { start_time } => Some(
                start_time.saturating_add(self.config.long_press_hold_interval),
            ),
        }
    }

    /// Applies one transition: the race in the current state was won by
    /// `winner` at tick `now`. Returns the emitted event, if any.
    pub fn step(&mut self, winner: RaceWinner, now: u64) -> (ev: Option<ButtonEvent>)
        ensures
            (final(self).state(), ev) == step_of(
                old(self).state(),
                old(self).config(),
                winner,
                now,
            ),
            final(self).config() == old(self).config(),
    {
        match (self.state, winner) {
            (ButtonState::Idle, RaceWinner::Edge) => {
                self.state = ButtonState::PressDebouncing { count: 0, start_time: now };
                None
            }
            (ButtonState::Idle, RaceWinner::Timer) => None,
            (ButtonState::PressDebouncing { .. }, RaceWinner::Edge) => {
                self.state = ButtonState::Idle;
                None
            }
            (ButtonState::PressDebouncing { count, .. }, RaceWinner::Timer) => {
                self.state = ButtonState::Pressed {
                    start_time: now,
                    count: count.saturating_add(1),
                };
                None
            }
            (ButtonState::Pressed { start_time, count }, RaceWinner::Edge) => {
                self.state = ButtonState::ReleaseDebouncing {
                    count,
                    press_start: start_time,
                    release_start: now,
                };
                None
            }
            (ButtonState::Pressed { start_time, .. }, RaceWinner::Timer) => {
                self.state = ButtonState::LongPress { start_time };
                Some(ButtonEvent::LongPressStart)
            }
            (ButtonState::ReleaseDebouncing { count, press_start, .. }, RaceWinner::Edge) => {
                self.state = ButtonState::Pressed { start_time: press_start, count };
                None
            }
            (ButtonState::ReleaseDebouncing { count, release_start, .. }, RaceWinner::Timer) => {
                self.state = ButtonState::WaitingForMultiClick {
                    count,
                    last_release: release_start,
                };
                None
            }
            (ButtonState::WaitingForMultiClick { count, .. }, RaceWinner::Edge) => {
                self.state = ButtonState::PressDebouncing { count, start_time: now };
                None
            }
            (ButtonState::WaitingForMultiClick { count, .. }, RaceWinner::Timer) => {
                self.state = ButtonState::Idle;
                if count == 0 {
                    None
                } else if count == 1 {
                    Some(ButtonEvent::Click)
                } else if count == 2 {
                    Some(ButtonEvent::DoubleClick)
                } else {
                    Some(ButtonEvent::MultipleClick { count })
                }
            }
            (ButtonState::LongPress { .. }, RaceWinner::Edge) => {
                self.state = ButtonState::Idle;
                Some(ButtonEvent::LongPressRelease)
            }
            (ButtonState::LongPress { start_time }, RaceWinner::Timer) => {
                self.state = ButtonState::LongPress {
                    start_time: start_time.saturating_add(self.config.long_press_hold_interval),
                };
                Some(ButtonEvent::LongPressHold)
            }
        }
    }
}

} // verus!
