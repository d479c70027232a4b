//! A multi-channel ADSR (attack, decay, sustain, release) envelope generator.
//!
//! All output channels of one voice share a single envelope: only the first
//! channel of a frame advances it, the other channels read the value that the
//! first one produced.
//!
//! Stage times are given in microseconds, levels in fixed point
//! (`fixed::ONE` is 1.0). A stage of `t` microseconds lasts `t * rate / 10^6`
//! samples at a sample rate of `rate` Hz; the generator compares the exact
//! products `progress * 10^6` and `t * rate`, so no rounding enters the
//! timing.

use vstd::prelude::*;
use crate::fixed::{floor_div, lemma_share_bounds, lemma_share_monotonic, share, ONE, MICROS_PER_SECOND};

verus! {

/// The stage that an envelope is in.
#[derive(Clone, Copy, Debug, PartialEq, Eq, Structural)]
pub enum AdsrStage {
    Idle,
    Attack,
    Decay,
    Sustain,
    Release,
}

/// The mathematical state of an envelope generator.
pub struct EnvelopeState {
    /// The current stage.
    pub stage: AdsrStage,
    /// Samples spent in the current stage.
    pub stage_progress: nat,
    /// The value last produced.
    pub current_value: int,
    /// Samples per second.
    pub sample_rate: nat,
}

/// The envelope generator of one voice.
pub struct MultiChannelAdsr {
    /// Samples per second.
    sample_rate: u32,
    /// Samples spent in the current stage.
    stage_progress: u64,
    /// The value last produced.
    current_value: i64,
    /// The current stage.
    stage: AdsrStage,
}

impl View for MultiChannelAdsr {
    type V = EnvelopeState;

    closed spec fn view(&self) -> EnvelopeState {
        EnvelopeState {
            stage: self.stage,
            stage_progress: self.stage_progress as nat,
            current_value: self.current_value as int,
            sample_rate: self.sample_rate as nat,
        }
    }
}

/// The time spent in a stage after `progress` samples, in millionths of a
/// sample.
pub open spec fn elapsed(progress: nat) -> int {
    progress * (MICROS_PER_SECOND as int)
}

/// The length of a stage of `micros` microseconds at `sample_rate` Hz, in
/// millionths of a sample.
pub open spec fn stage_length(micros: int, sample_rate: nat) -> int {
    micros * sample_rate
}

/// Whether a stage of `micros` microseconds is over after `progress` samples.
pub open spec fn stage_over(progress: nat, micros: int, sample_rate: nat) -> bool {
    elapsed(progress) >= stage_length(micros, sample_rate)
}

/// The state that a fresh generator starts in.
pub open spec fn initial_state(sample_rate: nat) -> EnvelopeState {
    EnvelopeState { stage: AdsrStage::Idle, stage_progress: 0, current_value: 0, sample_rate }
}

/// The state after a note-on: the attack starts over, whatever went before.
pub open spec fn after_note_on(s: EnvelopeState) -> EnvelopeState {
    EnvelopeState { stage: AdsrStage::Attack, stage_progress: 0, ..s }
}

/// The state after a note-off: the release starts, unless the generator idles.
pub open spec fn after_note_off(s: EnvelopeState) -> EnvelopeState {
    if s.stage == AdsrStage::Idle {
        s
    } else {
        EnvelopeState { stage: AdsrStage::Release, stage_progress: 0, ..s }
    }
}

/// The state after a reset: idle and silent.
pub open spec fn after_reset(s: EnvelopeState) -> EnvelopeState {
    EnvelopeState { stage: AdsrStage::Idle, stage_progress: 0, current_value: 0, ..s }
}

/// The state after advancing the envelope by one sample.
///
/// * Idle produces 0.
/// * Attack ramps from 0 to `ONE`; once its time is over it produces exactly
///   `ONE` and hands over to Decay, or straight to Sustain when `decay` is
///   not positive.
/// * Decay ramps from `ONE` to `sustain`, then produces exactly `sustain` and
///   hands over to Sustain.
/// * Sustain produces `sustain`, whatever its value.
/// * Release ramps from `sustain` to 0, then produces exactly 0 and hands
///   over to Idle.
pub open spec fn advanced(
    s: EnvelopeState,
    attack: int,
    decay: int,
    sustain: int,
    release: int,
) -> EnvelopeState {
    match s.stage {
        AdsrStage::Idle => EnvelopeState { current_value: 0, ..s },
        AdsrStage::Attack => {
            if stage_over(s.stage_progress, attack, s.sample_rate) {
                EnvelopeState {
                    stage: if decay > 0 {
                        AdsrStage::Decay
                    } else {
                        AdsrStage::Sustain
                    },
                    stage_progress: 0,
                    current_value: ONE as int,
                    ..s
                }
            } else {
                EnvelopeState {
                    stage_progress: s.stage_progress + 1,
                    current_value: share(
                        ONE as int,
                        elapsed(s.stage_progress),
                        stage_length(attack, s.sample_rate),
                    ),
                    ..s
                }
            }
        },
        AdsrStage::Decay => {
            if stage_over(s.stage_progress, decay, s.sample_rate) {
                EnvelopeState {
                    stage: AdsrStage::Sustain,
                    stage_progress: 0,
                    current_value: sustain,
                    ..s
                }
            } else {
                EnvelopeState {
                    stage_progress: s.stage_progress + 1,
                    current_value: ONE - share(
                        ONE - sustain,
                        elapsed(s.stage_progress),
                        stage_length(decay, s.sample_rate),
                    ),
                    ..s
                }
            }
        },
        AdsrStage::Sustain => EnvelopeState { current_value: sustain, ..s },
        AdsrStage::Release => {
            if stage_over(s.stage_progress, release, s.sample_rate) {
                EnvelopeState {
                    stage: AdsrStage::Idle,
                    stage_progress: 0,
                    current_value: 0,
                    ..s
                }
            } else {
                EnvelopeState {
                    stage_progress: s.stage_progress + 1,
                    current_value: share(
                        sustain,
                        stage_length(release, s.sample_rate) - elapsed(s.stage_progress),
                        stage_length(release, s.sample_rate),
                    ),
                    ..s
                }
            }
        },
    }
}

/// The state after one channel of a frame has asked for its value: the first
/// channel advances the envelope, every other channel leaves it alone.
pub open spec fn after_channel(
    s: EnvelopeState,
    attack: int,
    decay: int,
    sustain: int,
    release: int,
    is_first_channel: bool,
) -> EnvelopeState {
    if is_first_channel {
        advanced(s, attack, decay, sustain, release)
    } else {
        s
    }
}

/// The state after advancing the envelope `n` times with the same parameters.
pub open spec fn advanced_by(
    s: EnvelopeState,
    attack: int,
    decay: int,
    sustain: int,
    release: int,
    n: nat,
) -> EnvelopeState
    decreases n,
{
    if n == 0 {
        s
    } else {
        advanced_by(advanced(s, attack, decay, sustain, release), attack, decay, sustain, release, (n - 1) as nat)
    }
}

/// The number of samples on the ramp of a stage of `micros` microseconds: the
/// least count of samples after which the stage is over.
pub open spec fn ramp_samples(micros: int, sample_rate: nat) -> nat {
    let length = stage_length(micros, sample_rate);
    if length <= 0 {
        0
    } else {
        ((length + MICROS_PER_SECOND - 1) / (MICROS_PER_SECOND as int)) as nat
    }
}

/// The number of calls after a note-on from which on the envelope is known
/// to rest on its sustain level.
pub open spec fn settle_calls(attack: int, decay: int, sample_rate: nat) -> nat {
    ramp_samples(attack, sample_rate) + (if decay > 0 {
        ramp_samples(decay, sample_rate)
    } else {
        0
    }) + 2
}

impl MultiChannelAdsr {
    /// A generator at rest: idle, with value 0.
    pub fn new(sample_rate: u32) -> (adsr: Self)
        ensures
            adsr@ == initial_state(sample_rate as nat),
    {
        Self { stage: AdsrStage::Idle, current_value: 0, stage_progress: 0, sample_rate }
    }

    /// Starts a note: the attack begins at once, from any stage.
    pub fn note_on(&mut self)
        ensures
            final(self)@ == after_note_on(old(self)@),
    {
        self.stage = AdsrStage::Attack;
        self.stage_progress = 0;
    }

    /// Ends a note: the release begins, unless the generator idles, in which
    /// case nothing changes.
    pub fn note_off(&mut self)
        ensures
            final(self)@ == after_note_off(old(self)@),
            old(self)@.stage == AdsrStage::Idle ==> final(self)@ == old(self)@,
    {
        match self.stage {
            AdsrStage::Idle => {},
            _ => {
                self.stage = AdsrStage::Release;
                self.stage_progress = 0;
            },
        }
    }

    /// Returns the generator to rest.
    pub fn reset(&mut self)
        ensures
            final(self)@ == after_reset(old(self)@),
    {
        self.stage = AdsrStage::Idle;
        self.stage_progress = 0;
        self.current_value = 0;
    }

    /// Changes the sample rate; stage and progress stay as they are.
    pub fn set_sample_rate(&mut self, sample_rate: u32)
        ensures
            final(self)@ == (EnvelopeState { sample_rate: sample_rate as nat, ..old(self)@ }),
    {
        self.sample_rate = sample_rate;
    }

    /// Whether the generator is at rest.
    pub fn is_idling(&self) -> (idle: bool)
        ensures
            idle == (self@.stage == AdsrStage::Idle),
    {
        match self.stage {
            AdsrStage::Idle => true,
            _ => false,
        }
    }

    /// Whether a note is sounding.
    pub fn is_playing(&self) -> (playing: bool)
        ensures
            playing == (self@.stage != AdsrStage::Idle),
    {
        !self.is_idling()
    }

    /// The current stage.
    pub fn stage(&self) -> (stage: AdsrStage)
        ensures
            stage == self@.stage,
    {
        self.stage
    }

    /// Samples spent in the current stage.
    pub fn stage_progress(&self) -> (progress: u64)
        ensures
            progress == self@.stage_progress,
    {
        self.stage_progress
    }

    /// The value last produced.
    pub fn current_value(&self) -> (value: i64)
        ensures
            value == self@.current_value,
    {
        self.current_value
    }

    /// Samples per second.
    pub fn sample_rate(&self) -> (rate: u32)
        ensures
            rate == self@.sample_rate,
    {
        self.sample_rate
    }

    /// The length of a stage of `micros` microseconds at the current sample
    /// rate, in millionths of a sample.
    fn length_of(&self, micros: i32) -> (length: i128)
        ensures
            length == stage_length(micros as int, self@.sample_rate),
            -0x8000_0000_0000_0000 < length < 0x8000_0000_0000_0000,
    {
        let rate: i128 = self.sample_rate as i128;
        assert(-0x8000_0000_0000_0000 < micros * rate < 0x8000_0000_0000_0000)
            by (nonlinear_arith)
            requires
                -0x8000_0000 <= micros < 0x8000_0000,
                0 <= rate < 0x1_0000_0000,
        ;
        (micros as i128) * rate
    }

    /// Advances the envelope by one sample and returns the value it produced.
    pub fn next(&mut self, attack: i32, decay: i32, sustain: i64, release: i32) -> (value: i64)
        ensures
            final(self)@ == advanced(
                old(self)@,
                attack as int,
                decay as int,
                sustain as int,
                release as int,
            ),
            value == final(self)@.current_value,
    {
        let spent: i128 = (self.stage_progress as i128) * 1_000_000i128;
        match self.stage {
            AdsrStage::Idle => {
                self.current_value = 0;
            },
            AdsrStage::Attack => {
                let length: i128 = self.length_of(attack);
                if spent >= length {
                    self.current_value = ONE;
                    self.stage = if decay > 0 {
                        AdsrStage::Decay
                    } else {
                        AdsrStage::Sustain
                    };
                    self.stage_progress = 0;
                } else {
                    proof {
                        lemma_share_bounds(ONE as int, spent as int, length as int);
                    }
                    assert(ONE * spent < 0x8000_0000_0000_0000_0000_0000 && ONE * spent >= 0)
                        by (nonlinear_arith)
                        requires
                            0 <= spent < 0x8000_0000_0000_0000,
                            ONE == 0x1_0000_0000,
                    ;
                    let value: i128 = floor_div((ONE as i128) * spent, length);
                    self.current_value = value as i64;
                    self.stage_progress = self.stage_progress + 1;
                }
            },
            AdsrStage::Decay => {
                let length: i128 = self.length_of(decay);
                if spent >= length {
                    self.current_value = sustain;
                    self.stage = AdsrStage::Sustain;
                    self.stage_progress = 0;
                } else {
                    let drop: i128 = ONE as i128 - sustain as i128;
                    proof {
                        lemma_share_bounds(drop as int, spent as int, length as int);
                    }
                    assert(-0x7fff_ffff_ffff_ffff_ffff_ffff_ffff_ffff < drop * spent
                        < 0x7fff_ffff_ffff_ffff_ffff_ffff_ffff_ffff) by (nonlinear_arith)
                        requires
                            0 <= spent < 0x8000_0000_0000_0000,
                            -0x8000_0000_0000_0000 < drop < 0x8000_0001_0000_0001,
                    ;
                    let fallen: i128 = floor_div(drop * spent, length);
                    self.current_value = (ONE as i128 - fallen) as i64;
                    self.stage_progress = self.stage_progress + 1;
                }
            },
            AdsrStage::Sustain => {
                self.current_value = sustain;
            },
            AdsrStage::Release => {
                let length: i128 = self.length_of(release);
                if spent >= length {
                    self.current_value = 0;
                    self.stage = AdsrStage::Idle;
                    self.stage_progress = 0;
                } else {
                    let left: i128 = length - spent;
                    proof {
                        lemma_share_bounds(sustain as int, left as int, length as int);
                    }
                    assert(-0x4000_0000_0000_0000_0000_0000_0000_0000 < sustain * left
                        < 0x4000_0000_0000_0000_0000_0000_0000_0000) by (nonlinear_arith)
                        requires
                            0 < left < 0x8000_0000_0000_0000,
                            -0x8000_0000_0000_0000 <= sustain < 0x8000_0000_0000_0000,
                    ;
                    let value: i128 = floor_div((sustain as i128) * left, length);
                    self.current_value = value as i64;
                    self.stage_progress = self.stage_progress + 1;
                }
            },
        }
        self.current_value
    }

    /// The envelope value for one channel of the current frame.
    ///
    /// Called with `is_first_channel` set, it advances the envelope by one
    /// sample and returns the new value; called without, it returns the value
    /// of the frame's first channel and changes nothing. A caller sets the
    /// flag exactly once per frame, on the first call for that frame.
    pub fn next_value(
        &mut self,
        attack: i32,
        decay: i32,
        sustain: i64,
        release: i32,
        is_first_channel: bool,
    ) -> (value: i64)
        ensures
            final(self)@ == after_channel(
                old(self)@,
                attack as int,
                decay as int,
                sustain as int,
                release as int,
                is_first_channel,
            ),
            value == final(self)@.current_value,
            !is_first_channel ==> final(self)@ == old(self)@,
    {
        if !is_first_channel {
            self.current_value
        } else {
            self.next(attack, decay, sustain, release)
        }
    }
}

/// A note-off on an idle generator changes nothing.
pub proof fn lemma_note_off_when_idle_is_noop(s: EnvelopeState)
    requires
        s.stage == AdsrStage::Idle,
    ensures
        after_note_off(s) == s,
{
}

/// Within one frame, the channel that follows the first channel reads the
/// value that the first channel produced, and leaves the progress of the
/// stage where the first channel put it.
pub proof fn lemma_channels_share_one_value(
    s: EnvelopeState,
    attack: int,
    decay: int,
    sustain: int,
    release: int,
)
    ensures
        ({
            let first = after_channel(s, attack, decay, sustain, release, true);
            let second = after_channel(first, attack, decay, sustain, release, false);
            &&& second.current_value == first.current_value
            &&& second.stage_progress == first.stage_progress
            &&& second == first
        }),
{
}

/// A stage without duration is passed within a single call: an attack then
/// hands over to Decay or Sustain on the spot, a decay to Sustain, a release
/// to Idle, each with the end value of the stage.
pub proof fn lemma_stage_without_duration_collapses(
    s: EnvelopeState,
    attack: int,
    decay: int,
    sustain: int,
    release: int,
)
    ensures
        ({
            let t = advanced(s, attack, decay, sustain, release);
            &&& s.stage == AdsrStage::Attack && stage_length(attack, s.sample_rate) <= 0 ==> {
                &&& t.stage == (if decay > 0 {
                    AdsrStage::Decay
                } else {
                    AdsrStage::Sustain
                })
                &&& t.current_value == ONE
                &&& t.stage_progress == 0
            }
            &&& s.stage == AdsrStage::Decay && stage_length(decay, s.sample_rate) <= 0 ==> {
                &&& t.stage == AdsrStage::Sustain
                &&& t.current_value == sustain
                &&& t.stage_progress == 0
            }
            &&& s.stage == AdsrStage::Release && stage_length(release, s.sample_rate) <= 0 ==> {
                &&& t.stage == AdsrStage::Idle
                &&& t.current_value == 0
                &&& t.stage_progress == 0
            }
        }),
{
    assert(elapsed(s.stage_progress) >= 0) by (nonlinear_arith)
        requires
            elapsed(s.stage_progress) == s.stage_progress * (MICROS_PER_SECOND as int),
            MICROS_PER_SECOND == 1_000_000,
    ;
}

/// With every stage time at zero, one call after a note-on reaches Sustain
/// and one call after a note-off reaches Idle.
pub proof fn lemma_all_zero_times(s: EnvelopeState, sustain: int)
    ensures
        advanced(after_note_on(s), 0, 0, sustain, 0).stage == AdsrStage::Sustain,
        s.stage != AdsrStage::Idle ==> advanced(after_note_off(s), 0, 0, sustain, 0).stage
            == AdsrStage::Idle,
{
    lemma_stage_without_duration_collapses(after_note_on(s), 0, 0, sustain, 0);
    lemma_stage_without_duration_collapses(after_note_off(s), 0, 0, sustain, 0);
}

/// Every value that the attack produces lies between 0 and `ONE`.
pub proof fn lemma_attack_value_in_range(
    s: EnvelopeState,
    attack: int,
    decay: int,
    sustain: int,
    release: int,
)
    requires
        s.stage == AdsrStage::Attack,
    ensures
        0 <= advanced(s, attack, decay, sustain, release).current_value <= ONE,
{
    lemma_elapsed_facts(s.stage_progress, s.stage_progress);
    if !stage_over(s.stage_progress, attack, s.sample_rate) {
        lemma_share_bounds(
            ONE as int,
            elapsed(s.stage_progress),
            stage_length(attack, s.sample_rate),
        );
    }
}

/// During the attack the values never fall: of two successive calls that
/// both find the generator in Attack, the second produces at least what the
/// first produced.
pub proof fn lemma_attack_never_falls(
    s: EnvelopeState,
    attack: int,
    decay: int,
    sustain: int,
    release: int,
)
    requires
        s.stage == AdsrStage::Attack,
        advanced(s, attack, decay, sustain, release).stage == AdsrStage::Attack,
    ensures
        ({
            let first = advanced(s, attack, decay, sustain, release);
            let second = advanced(first, attack, decay, sustain, release);
            first.current_value <= second.current_value
        }),
{
    let first = advanced(s, attack, decay, sustain, release);
    let length = stage_length(attack, s.sample_rate);
    lemma_elapsed_facts(s.stage_progress, first.stage_progress);
    lemma_share_bounds(ONE as int, elapsed(s.stage_progress), length);
    if !stage_over(first.stage_progress, attack, first.sample_rate) {
        lemma_share_monotonic(
            ONE as int,
            elapsed(s.stage_progress),
            elapsed(first.stage_progress),
            length,
        );
    }
}

/// During the decay the values never rise, provided the sustain level is at
/// most `ONE`: of two successive calls that both find the generator in Decay,
/// the second produces at most what the first produced.
pub proof fn lemma_decay_never_rises(
    s: EnvelopeState,
    attack: int,
    decay: int,
    sustain: int,
    release: int,
)
    requires
        sustain <= ONE,
        s.stage == AdsrStage::Decay,
        advanced(s, attack, decay, sustain, release).stage == AdsrStage::Decay,
    ensures
        ({
            let first = advanced(s, attack, decay, sustain, release);
            let second = advanced(first, attack, decay, sustain, release);
            first.current_value >= second.current_value
        }),
{
    let first = advanced(s, attack, decay, sustain, release);
    let length = stage_length(decay, s.sample_rate);
    lemma_elapsed_facts(s.stage_progress, first.stage_progress);
    lemma_share_bounds(ONE - sustain, elapsed(s.stage_progress), length);
    if !stage_over(first.stage_progress, decay, first.sample_rate) {
        lemma_share_monotonic(
            ONE - sustain,
            elapsed(s.stage_progress),
            elapsed(first.stage_progress),
            length,
        );
    }
}

/// During the release the values never rise, provided the sustain level is
/// not negative: of two successive calls that both find the generator in
/// Release, the second produces at most what the first produced.
pub proof fn lemma_release_never_rises(
    s: EnvelopeState,
    attack: int,
    decay: int,
    sustain: int,
    release: int,
)
    requires
        sustain >= 0,
        s.stage == AdsrStage::Release,
        advanced(s, attack, decay, sustain, release).stage == AdsrStage::Release,
    ensures
        ({
            let first = advanced(s, attack, decay, sustain, release);
            let second = advanced(first, attack, decay, sustain, release);
            first.current_value >= second.current_value
        }),
{
    let first = advanced(s, attack, decay, sustain, release);
    let length = stage_length(release, s.sample_rate);
    lemma_elapsed_facts(s.stage_progress, first.stage_progress);
    lemma_share_bounds(sustain, length - elapsed(s.stage_progress), length);
    if !stage_over(first.stage_progress, release, first.sample_rate) {
        lemma_share_monotonic(
            sustain,
            length - elapsed(first.stage_progress),
            length - elapsed(s.stage_progress),
            length,
        );
    }
}

/// After a note-on and at least `settle_calls` calls with the same
/// parameters, the generator is in Sustain and its value is exactly the
/// sustain level, whatever that level is.
pub proof fn lemma_note_on_settles_on_sustain(
    s: EnvelopeState,
    attack: int,
    decay: int,
    sustain: int,
    release: int,
    n: nat,
)
    requires
        n >= settle_calls(attack, decay, s.sample_rate),
    ensures
        advanced_by(after_note_on(s), attack, decay, sustain, release, n).stage
            == AdsrStage::Sustain,
        advanced_by(after_note_on(s), attack, decay, sustain, release, n).current_value
            == sustain,
{
    let start = after_note_on(s);
    let rate = s.sample_rate;
    let up = ramp_samples(attack, rate);
    let peak = advanced_by(start, attack, decay, sustain, release, up + 1);
    lemma_ramp_runs_out(start, attack, decay, sustain, release);
    lemma_advanced_by_splits(start, attack, decay, sustain, release, up + 1, (n - (up + 1)) as nat);
    if decay > 0 {
        let down = ramp_samples(decay, rate);
        lemma_ramp_runs_out(peak, attack, decay, sustain, release);
        let held = advanced_by(peak, attack, decay, sustain, release, down + 1);
        lemma_advanced_by_splits(
            peak,
            attack,
            decay,
            sustain,
            release,
            down + 1,
            (n - (up + 1) - (down + 1)) as nat,
        );
        lemma_sustain_holds(
            held,
            attack,
            decay,
            sustain,
            release,
            (n - (up + 1) - (down + 1)) as nat,
        );
    } else {
        lemma_sustain_holds(peak, attack, decay, sustain, release, (n - (up + 1)) as nat);
    }
}

/// Elapsed time is never negative and grows with the progress.
proof fn lemma_elapsed_facts(a: nat, b: nat)
    ensures
        elapsed(a) >= 0,
        a <= b ==> elapsed(a) <= elapsed(b),
        elapsed(a + 1) == elapsed(a) + MICROS_PER_SECOND,
{
    assert(elapsed(a) >= 0 && (a <= b ==> elapsed(a) <= elapsed(b)) && elapsed(a + 1) == elapsed(
        a,
    ) + MICROS_PER_SECOND) by (nonlinear_arith)
        requires
            elapsed(a) == a * (MICROS_PER_SECOND as int),
            elapsed(b) == b * (MICROS_PER_SECOND as int),
            elapsed(a + 1) == (a + 1) * (MICROS_PER_SECOND as int),
            MICROS_PER_SECOND == 1_000_000,
    ;
}

/// Advancing `a + b` times is advancing `a` times and then `b` times.
proof fn lemma_advanced_by_splits(
    s: EnvelopeState,
    attack: int,
    decay: int,
    sustain: int,
    release: int,
    a: nat,
    b: nat,
)
    ensures
        advanced_by(s, attack, decay, sustain, release, a + b) == advanced_by(
            advanced_by(s, attack, decay, sustain, release, a),
            attack,
            decay,
            sustain,
            release,
            b,
        ),
    decreases a,
{
    if a > 0 {
        lemma_advanced_by_splits(
            advanced(s, attack, decay, sustain, release),
            attack,
            decay,
            sustain,
            release,
            (a - 1) as nat,
            b,
        );
        assert((a - 1) as nat + b == (a + b - 1) as nat);
    }
}

/// The facts about `ramp_samples` that the proofs below rest on: the stage
/// is over after that many samples, and not before.
proof fn lemma_ramp_samples_is_least(micros: int, sample_rate: nat, progress: nat)
    ensures
        progress >= ramp_samples(micros, sample_rate) ==> stage_over(
            progress,
            micros,
            sample_rate,
        ),
        progress < ramp_samples(micros, sample_rate) ==> !stage_over(
            progress,
            micros,
            sample_rate,
        ),
{
    let length = stage_length(micros, sample_rate);
    let least = ramp_samples(micros, sample_rate);
    lemma_elapsed_facts(progress, least);
    lemma_elapsed_facts(least, progress);
    assert(elapsed(least) == least * 1_000_000);
    assert(elapsed(progress) == progress * 1_000_000);
    if length > 0 {
        assert(least * 1_000_000 >= length);
        assert((least - 1) * 1_000_000 < length);
    }
}

/// From any point on the ramp of an attack or a decay, the calls that are
/// left on the ramp and one more bring the generator to the end of the
/// stage: to Decay or Sustain with `ONE` after an attack, to Sustain with
/// the sustain level after a decay.
proof fn lemma_ramp_runs_out(
    s: EnvelopeState,
    attack: int,
    decay: int,
    sustain: int,
    release: int,
)
    requires
        s.stage == AdsrStage::Attack || s.stage == AdsrStage::Decay,
        s.stage == AdsrStage::Attack ==> s.stage_progress <= ramp_samples(attack, s.sample_rate),
        s.stage == AdsrStage::Decay ==> s.stage_progress <= ramp_samples(decay, s.sample_rate),
    ensures
        ({
            let micros = if s.stage == AdsrStage::Attack {
                attack
            } else {
                decay
            };
            let left = (ramp_samples(micros, s.sample_rate) - s.stage_progress + 1) as nat;
            let end = advanced_by(s, attack, decay, sustain, release, left);
            &&& end.sample_rate == s.sample_rate
            &&& end.stage_progress == 0
            &&& s.stage == AdsrStage::Attack ==> {
                &&& end.current_value == ONE
                &&& end.stage == (if decay > 0 {
                    AdsrStage::Decay
                } else {
                    AdsrStage::Sustain
                })
            }
            &&& s.stage == AdsrStage::Decay ==> {
                &&& end.current_value == sustain
                &&& end.stage == AdsrStage::Sustain
            }
        }),
    decreases
        (if s.stage == AdsrStage::Attack {
            ramp_samples(attack, s.sample_rate)
        } else {
            ramp_samples(decay, s.sample_rate)
        }) - s.stage_progress,
{
    let micros = if s.stage == AdsrStage::Attack {
        attack
    } else {
        decay
    };
    let total = ramp_samples(micros, s.sample_rate);
    let left = (total - s.stage_progress + 1) as nat;
    let next = advanced(s, attack, decay, sustain, release);
    lemma_ramp_samples_is_least(micros, s.sample_rate, s.stage_progress);
    assert(advanced_by(s, attack, decay, sustain, release, left) == advanced_by(
        next,
        attack,
        decay,
        sustain,
        release,
        (left - 1) as nat,
    ));
    if s.stage_progress < total {
        lemma_ramp_runs_out(next, attack, decay, sustain, release);
    } else {
        assert(advanced_by(next, attack, decay, sustain, release, 0) == next);
    }
}

/// A generator in Sustain stays there, and after one call at the latest its
/// value is the sustain level.
proof fn lemma_sustain_holds(
    s: EnvelopeState,
    attack: int,
    decay: int,
    sustain: int,
    release: int,
    n: nat,
)
    requires
        s.stage == AdsrStage::Sustain,
        n >= 1 || s.current_value == sustain,
    ensures
        advanced_by(s, attack, decay, sustain, release, n).stage == AdsrStage::Sustain,
        advanced_by(s, attack, decay, sustain, release, n).current_value == sustain,
    decreases n,
{
    if n > 0 {
        lemma_sustain_holds(
            advanced(s, attack, decay, sustain, release),
            attack,
            decay,
            sustain,
            release,
            (n - 1) as nat,
        );
    }
}

} // verus!
