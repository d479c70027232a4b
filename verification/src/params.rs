//! The parameters that a host hands to the engine. The engine only reads
//! them: each call that needs parameters takes the values that hold for the
//! block being rendered.

use vstd::prelude::*;
use crate::fixed::ONE;
use crate::pitch_shift::PitchShiftKind;

verus! {

/// Number of sample slots of the sampler.
pub const MAX_SAMPLES: usize = 8;

/// The part that a voice plays in the crossfade between two voices.
#[derive(Clone, Copy, Debug, PartialEq, Eq, Structural)]
pub enum BlendGroup {
    /// The voice takes no part in the crossfade.
    Off,
    /// The voice fades out across the blend window.
    Start,
    /// The voice fades in across the blend window.
    End,
}

/// The parameters of one sample slot.
///
/// Times are in microseconds, levels and gains in fixed point, pitches in
/// semitones.
#[derive(Clone, Copy, Debug)]
pub struct SampleWrapperParams {
    /// A muted voice renders nothing.
    pub muted: bool,
    /// Whether the played note and the root note shift the pitch.
    pub is_tonal: bool,
    /// The gain of the voice.
    pub gain: i64,
    /// The note at which the sample sounds at its own pitch, as a pitch
    /// class from 0 (C) to 11 (B).
    pub root_note: i32,
    /// Fine tuning in semitones.
    pub semitone_offset: i32,
    /// Attack time.
    pub attack: i32,
    /// Decay time.
    pub decay: i32,
    /// Sustain level.
    pub sustain: i64,
    /// Release time.
    pub release: i32,
    /// The part of the voice in the crossfade.
    pub blend_group: BlendGroup,
    /// The pitch-shifting strategy of the voice.
    pub pitch_shift_kind: PitchShiftKind,
}

/// The parameter values of a slot that nobody has touched: unmuted, tonal,
/// unity gain, no tuning, no attack, 100 ms of decay to a sustain level of
/// 1.0, 10 ms of release, outside the crossfade, direct resampling.
pub open spec fn default_sample_params() -> SampleWrapperParams {
    SampleWrapperParams {
        muted: false,
        is_tonal: true,
        gain: ONE,
        root_note: 0,
        semitone_offset: 0,
        attack: 0,
        decay: 100_000,
        sustain: ONE,
        release: 10_000,
        blend_group: BlendGroup::Off,
        pitch_shift_kind: PitchShiftKind::Classic,
    }
}

impl Default for SampleWrapperParams {
    fn default() -> (params: Self)
        ensures
            params == default_sample_params(),
    {
        SampleWrapperParams {
            muted: false,
            is_tonal: true,
            gain: ONE,
            root_note: 0,
            semitone_offset: 0,
            attack: 0,
            decay: 100_000,
            sustain: ONE,
            release: 10_000,
            blend_group: BlendGroup::Off,
            pitch_shift_kind: PitchShiftKind::Classic,
        }
    }
}

/// The parameters of the whole sampler.
#[derive(Clone, Debug)]
pub struct HardKickSamplerParams {
    /// The master gain.
    pub gain: i64,
    /// The centre of the blend window on the timeline of a note, in
    /// microseconds.
    pub blend_time: i64,
    /// The width of the blend window, in microseconds.
    pub blend_transition: i64,
    /// The parameters of the slots.
    pub samples: Vec<SampleWrapperParams>,
}

impl Default for HardKickSamplerParams {
    fn default() -> (params: Self)
        ensures
            params.gain == ONE,
            params.blend_time == 0,
            params.blend_transition == 0,
            params.samples@.len() == MAX_SAMPLES,
            forall|i: int|
                0 <= i < MAX_SAMPLES ==> #[trigger] params.samples@[i] == default_sample_params(),
    {
        let mut samples: Vec<SampleWrapperParams> = Vec::new();
        let mut i: usize = 0;
        while i < MAX_SAMPLES
            invariant
                i <= MAX_SAMPLES,
                samples@.len() == i,
                forall|j: int| 0 <= j < i ==> #[trigger] samples@[j] == default_sample_params(),
            decreases MAX_SAMPLES - i,
        {
            samples.push(SampleWrapperParams::default());
            i = i + 1;
        }
        HardKickSamplerParams { gain: ONE, blend_time: 0, blend_transition: 0, samples }
    }
}

} // verus!
