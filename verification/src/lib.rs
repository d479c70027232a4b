//! The audio engine of a multi-slot one-shot sampler.
//!
//! Each slot plays its sample at a pitch that follows the note, shapes it
//! with an envelope, and can fade against another slot across a blend
//! window. The engine works in fixed point throughout: levels, gains and
//! sample values are 64-bit numbers with 32 fractional bits (`fixed::ONE`
//! is 1.0), positions are counted in frames with 32 fractional bits, and
//! times in microseconds.
//!
//! * `adsr`: the envelope generator.
//! * `pitch_shift`: the two pitch-shifting strategies and their interface.
//! * `utils`: interpolation, playback rates, the blend crossfade, note
//!   names, and the neighbours of a file in its directory.
//! * `sample_wrapper`: the player of one slot.
//! * `plugin`: the sampler, with a player for each slot.
//! * `params`, `tasks`: what a host and a loader hand to the engine.
//! * `display`: what a display of a sample needs to know.
//! * `fixed`: the arithmetic that all of them share.

pub mod adsr;
pub mod display;
pub mod fixed;
pub mod params;
pub mod pitch_shift;
pub mod plugin;
pub mod sample_wrapper;
pub mod tasks;
pub mod utils;
