//! The control core of a monophonic, MIDI-driven oscillator.
//!
//! Everything the synthesis path decides in whole numbers lives here: which
//! note events are due at a sample, which note is held, how many samples a
//! ramp has left. The values that are smoothed and multiplied are carried
//! through as an opaque parameter type; the arithmetic on them belongs to the
//! caller, who follows the plan this crate hands out sample by sample.

pub mod event;
pub mod osc;
pub mod scheduler;
pub mod smoother;
pub mod tracker;
