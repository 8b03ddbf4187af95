//! Turns raw, noisy electrical signals (digital pins, analog voltage
//! ladders, scanned key matrices) into high-level interaction events:
//! click, double click, N-click, and long-press start / hold / release.
//!
//! The verified cores, leaves first:
//!
//! - [`bus`]: a bounded single-producer / multi-subscriber broadcast ring
//!   with lossy-but-monotonic delivery to slow subscribers;
//! - [`adc`]: sample filters (raw, median) and the analog threshold
//!   adapter;
//! - [`adc_keypad`]: voltage-to-keymask decoding with deduplication and
//!   the keymask-bit adapter;
//! - [`matrix`]: row/column key-matrix scanning with change detection;
//! - [`gpio`]: active-level selection for directly wired pins;
//! - [`engine`]: the click / debounce / long-press state machine, written
//!   as a pure transition function over race outcomes (edge vs. timer);
//! - [`timeline`]: an idealised replay of the engine against timed edge
//!   traces, with the engine's behavioural laws proved over it.
//!
//! All times in this crate are `u64` tick counts of one monotonic clock;
//! the configuration defaults read a tick as one microsecond.

pub mod adc;
pub mod adc_keypad;
pub mod bus;
pub mod config;
pub mod engine;
pub mod gpio;
pub mod matrix;
pub mod timeline;

pub use config::ButtonConfig;
pub use engine::Button;
pub use engine::ButtonEvent;
pub use engine::ButtonState;
pub use engine::RaceWinner;
pub use engine::WaitKind;
pub use matrix::KeyEvent;
