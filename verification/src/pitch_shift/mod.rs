//! Pitch shifting: one interface, two strategies.
//!
//! A strategy is loaded with a sample, triggered when a note starts, and
//! then asked for one frame after the other until it has none left. The
//! direct resampler reads the sample at a fractional position; the
//! overlap-add shifter reads a stream that was synthesised for the note.

pub mod classic;
pub mod psola;

use vstd::prelude::*;
use crate::pitch_shift::classic::{
    classic_frame, classic_loaded, classic_ready, classic_triggered, empty_classic, ClassicShifter,
    ClassicState,
};
use crate::pitch_shift::psola::{
    analysis_signal, empty_psola, is_pitch_request_of, psola_frame, psola_loaded, psola_pitch_detected,
    psola_ready, psola_synthesis_done, psola_triggered, stream_views, synthesis_request_of,
    PitchRequest, PsolaShifter, PsolaState, SynthesisRequest,
};
use crate::utils::{pitched_position, scaled};

verus! {

/// The strategies that a voice can choose from.
#[derive(Clone, Copy, Debug, PartialEq, Eq, Structural)]
pub enum PitchShiftKind {
    /// Direct resampling with linear interpolation.
    Classic,
    /// Pitch-synchronous overlap-add.
    Psola,
}

/// One frame of output: a value for each channel of a mono or stereo
/// sample. Samples of any other width are not supported.
#[derive(Clone, Copy, Debug)]
pub enum FrameOutput {
    Mono(i64),
    Stereo([i64; 2]),
    Unsupported,
}

impl FrameOutput {
    /// The values of the frame, one for each channel; none for a frame that
    /// is not supported.
    pub open spec fn channels(self) -> Seq<i64> {
        match self {
            FrameOutput::Mono(value) => seq![value],
            FrameOutput::Stereo(pair) => seq![pair[0], pair[1]],
            FrameOutput::Unsupported => Seq::empty(),
        }
    }

    /// The number of channels of the frame.
    pub fn width(&self) -> (width: usize)
        ensures
            width == self.channels().len(),
    {
        match self {
            FrameOutput::Mono(_) => 1,
            FrameOutput::Stereo(_) => 2,
            FrameOutput::Unsupported => 0,
        }
    }

    /// The value of channel `index`, where the frame has one.
    pub fn channel(&self, index: usize) -> (value: Option<i64>)
        ensures
            index < self.channels().len() ==> value == Some(self.channels()[index as int]),
            index >= self.channels().len() ==> value is None,
    {
        match self {
            FrameOutput::Mono(value) => {
                if index == 0 {
                    Some(*value)
                } else {
                    None
                }
            },
            FrameOutput::Stereo(pair) => {
                if index < 2 {
                    Some(pair[index])
                } else {
                    None
                }
            },
            FrameOutput::Unsupported => None,
        }
    }
}

/// What every pitch-shifting strategy offers.
///
/// Positions are counted in host frames, with 32 fractional bits; rates and
/// the sample-rate correction (the sample's own rate over the host's) are
/// fixed-point factors.
pub trait PitchShifter: Sized {
    /// Whether a sample is loaded.
    spec fn has_sample(&self) -> bool;

    /// Whether the strategy hands out frames: a sample is loaded and a note
    /// was triggered since.
    spec fn is_ready(&self) -> bool;

    /// The frame at `position`, if the strategy has one there.
    spec fn frame_at(&self, position: u64) -> Option<FrameOutput>;

    /// Drops the loaded sample. A strategy without a sample stays as it is.
    fn clear_sample(&mut self)
        ensures
            !final(self).has_sample(),
            !final(self).is_ready(),
    ;

    /// Takes a new sample in place of any earlier one. The strategy hands
    /// out no frame of it before the next trigger.
    fn load_sample(&mut self, sample_buffer: &Vec<i64>, channel_number: usize, sample_rate: u32)
        ensures
            !final(self).is_ready(),
    ;

    /// Arms the strategy for a new note. Without a sample nothing changes.
    fn trigger(&mut self, sr_correction: u64, playback_rate: u64)
        ensures
            !old(self).has_sample() ==> *final(self) == *old(self),
            final(self).has_sample() == old(self).has_sample(),
            final(self).is_ready() ==> final(self).has_sample(),
    ;

    /// Whether the strategy hands out frames.
    fn ready(&self) -> (ready: bool)
        ensures
            ready == self.is_ready(),
    ;

    /// The frame at `position`. `None` says that the strategy is not ready
    /// or that the sample has ended there.
    fn get_frame(&mut self, position: u64) -> (frame: Option<FrameOutput>)
        ensures
            *final(self) == *old(self),
            frame == old(self).frame_at(position),
            !old(self).is_ready() ==> frame is None,
    ;

    /// Which strategy this is.
    fn kind(&self) -> PitchShiftKind;

    /// The position in the sample that corresponds to `position` host
    /// frames.
    fn get_position(&self, position: u64) -> u64;
}

/// The strategy of a voice: one of the two, chosen while the voice runs.
pub enum Shifter {
    Classic(ClassicShifter),
    Psola(PsolaShifter),
}

/// The mathematical state of the strategy of a voice.
pub enum ShifterState {
    Classic(ClassicState),
    Psola(PsolaState),
}

impl View for Shifter {
    type V = ShifterState;

    open spec fn view(&self) -> ShifterState {
        match self {
            Shifter::Classic(shifter) => ShifterState::Classic(shifter@),
            Shifter::Psola(shifter) => ShifterState::Psola(shifter@),
        }
    }
}

/// The state of a strategy of the given kind that has no sample yet.
pub open spec fn fresh_shifter(kind: PitchShiftKind) -> ShifterState {
    match kind {
        PitchShiftKind::Classic => ShifterState::Classic(empty_classic()),
        PitchShiftKind::Psola => ShifterState::Psola(
            empty_psola(crate::fixed::ONE as nat, crate::fixed::ONE as nat),
        ),
    }
}

/// Which strategy a state belongs to.
pub open spec fn shifter_kind(s: ShifterState) -> PitchShiftKind {
    match s {
        ShifterState::Classic(_) => PitchShiftKind::Classic,
        ShifterState::Psola(_) => PitchShiftKind::Psola,
    }
}

/// Whether a strategy in state `s` has a usable sample.
pub open spec fn shifter_has_sample(s: ShifterState) -> bool {
    match s {
        ShifterState::Classic(c) => c.loaded && c.buffer is Some,
        ShifterState::Psola(p) => p.loaded,
    }
}

/// Whether a strategy in state `s` waits for the pitch of its sample.
pub open spec fn shifter_awaits_pitch(s: ShifterState) -> bool {
    s matches ShifterState::Psola(p) && p.awaiting_pitch
}

/// Whether a strategy in state `s` hands out frames.
pub open spec fn shifter_ready(s: ShifterState) -> bool {
    match s {
        ShifterState::Classic(c) => classic_ready(c),
        ShifterState::Psola(p) => psola_ready(p),
    }
}

/// The frame that a strategy in state `s` has at `position`.
pub open spec fn shifter_frame(s: ShifterState, position: u64) -> Option<FrameOutput> {
    match s {
        ShifterState::Classic(c) => classic_frame(c, position),
        ShifterState::Psola(p) => psola_frame(p, position),
    }
}

/// The state of a strategy after its sample was dropped.
pub open spec fn shifter_cleared(s: ShifterState) -> ShifterState {
    match s {
        ShifterState::Classic(_) => ShifterState::Classic(empty_classic()),
        ShifterState::Psola(p) => ShifterState::Psola(
            empty_psola(p.sr_correction, p.playback_rate),
        ),
    }
}

/// The state of a strategy after it was loaded with a sample.
pub open spec fn shifter_loaded(
    s: ShifterState,
    buffer: Seq<i64>,
    channels: nat,
    sample_rate: nat,
) -> ShifterState {
    match s {
        ShifterState::Classic(c) => ShifterState::Classic(
            classic_loaded(c, buffer, channels, sample_rate),
        ),
        ShifterState::Psola(p) => ShifterState::Psola(
            psola_loaded(p, buffer, channels, sample_rate),
        ),
    }
}

/// The state of a strategy after a trigger.
pub open spec fn shifter_triggered(
    s: ShifterState,
    sr_correction: nat,
    playback_rate: nat,
) -> ShifterState {
    match s {
        ShifterState::Classic(c) => ShifterState::Classic(
            classic_triggered(c, sr_correction, playback_rate),
        ),
        ShifterState::Psola(p) => ShifterState::Psola(
            psola_triggered(p, sr_correction, playback_rate),
        ),
    }
}

/// The position in the sample that a strategy in state `s` has reached
/// after `position` host frames.
pub open spec fn shifter_position(s: ShifterState, position: u64) -> int {
    match s {
        ShifterState::Classic(c) => pitched_position(
            position as int,
            c.sr_correction as int,
            c.playback_rate as int,
        ),
        ShifterState::Psola(p) => scaled(position as int, p.sr_correction as int),
    }
}

/// The state of an overlap-add strategy after the detection of the pitch
/// of its sample; a direct resampler takes no notice.
pub open spec fn shifter_pitch_detected(s: ShifterState, frequency: Option<u64>) -> ShifterState {
    match s {
        ShifterState::Classic(_) => s,
        ShifterState::Psola(p) => ShifterState::Psola(psola_pitch_detected(p, frequency)),
    }
}

/// The state of an overlap-add strategy after the synthesis of the stream
/// of a note; a direct resampler takes no notice.
pub open spec fn shifter_synthesis_done(s: ShifterState, streams: Seq<Seq<i64>>) -> ShifterState {
    match s {
        ShifterState::Classic(_) => s,
        ShifterState::Psola(p) => ShifterState::Psola(psola_synthesis_done(p, streams)),
    }
}

/// Whether `request` is what a strategy in state `s` asks of the detection
/// of the pitch; a direct resampler asks for nothing.
pub open spec fn shifter_asks_for_pitch(request: Option<PitchRequest>, s: ShifterState) -> bool {
    match s {
        ShifterState::Classic(_) => request is None,
        ShifterState::Psola(p) => is_pitch_request_of(request, p),
    }
}

/// What a strategy in state `s` asks of the synthesis; a direct resampler
/// asks for nothing.
pub open spec fn shifter_synthesis_request(s: ShifterState) -> Option<SynthesisRequest> {
    match s {
        ShifterState::Classic(_) => None,
        ShifterState::Psola(p) => synthesis_request_of(p),
    }
}

/// Dropping the sample leaves a strategy not ready and without a sample, and
/// dropping it once more changes nothing.
pub proof fn lemma_clearing_is_idempotent(s: ShifterState)
    ensures
        !shifter_has_sample(shifter_cleared(s)),
        !shifter_ready(shifter_cleared(s)),
        shifter_cleared(shifter_cleared(s)) == shifter_cleared(s),
{
}

/// A strategy is ready only with a sample, and a trigger makes a direct
/// resampler with a sample ready at once.
pub proof fn lemma_ready_needs_a_sample(s: ShifterState, sr_correction: nat, playback_rate: nat)
    ensures
        shifter_ready(s) ==> shifter_has_sample(s),
        !shifter_has_sample(s) ==> shifter_triggered(s, sr_correction, playback_rate) == s,
        s is Classic && shifter_has_sample(s) ==> shifter_ready(
            shifter_triggered(s, sr_correction, playback_rate),
        ),
{
}

impl Shifter {
    /// A strategy of the given kind, without a sample.
    pub fn new(kind: PitchShiftKind) -> (shifter: Self)
        ensures
            shifter@ == fresh_shifter(kind),
    {
        match kind {
            PitchShiftKind::Classic => Shifter::Classic(ClassicShifter::new()),
            PitchShiftKind::Psola => Shifter::Psola(PsolaShifter::new()),
        }
    }

    /// Whether the strategy waits for the pitch of its sample.
    pub fn awaits_pitch(&self) -> (awaited: bool)
        ensures
            awaited == shifter_awaits_pitch(self@),
    {
        match self {
            Shifter::Classic(_) => false,
            Shifter::Psola(shifter) => shifter.awaits_pitch(),
        }
    }

    /// What the detection of the pitch is to work on, while an overlap-add
    /// strategy waits for the pitch of its sample.
    pub fn pitch_request(&self) -> (request: Option<PitchRequest>)
        ensures
            shifter_asks_for_pitch(request, self@),
    {
        match self {
            Shifter::Classic(_) => None,
            Shifter::Psola(shifter) => shifter.pitch_request(),
        }
    }

    /// Hands the outcome of the detection of the pitch to an overlap-add
    /// strategy.
    pub fn pitch_detected(&mut self, frequency: Option<u64>)
        ensures
            final(self)@ == shifter_pitch_detected(old(self)@, frequency),
    {
        match self {
            Shifter::Classic(_) => {},
            Shifter::Psola(shifter) => {
                shifter.pitch_detected(frequency);
            },
        }
    }

    /// The signal that the analysis of channel `channel` works on; empty
    /// where there is none.
    pub fn analysis_input(&self, channel: usize) -> (signal: Vec<i64>)
        ensures
            self@ matches ShifterState::Psola(p) ==> signal@ == analysis_signal(p, channel as nat),
            self@ is Classic ==> signal@.len() == 0,
    {
        match self {
            Shifter::Classic(_) => Vec::new(),
            Shifter::Psola(shifter) => shifter.analysis_input(channel),
        }
    }

    /// What the synthesis of the stream of the current note is to work
    /// with, while an overlap-add strategy waits for that stream.
    pub fn synthesis_request(&self) -> (request: Option<SynthesisRequest>)
        ensures
            request == shifter_synthesis_request(self@),
    {
        match self {
            Shifter::Classic(_) => None,
            Shifter::Psola(shifter) => shifter.synthesis_request(),
        }
    }

    /// Hands the synthesised stream of each channel to an overlap-add
    /// strategy.
    pub fn synthesis_done(&mut self, streams: Vec<Vec<i64>>)
        ensures
            final(self)@ == shifter_synthesis_done(old(self)@, stream_views(streams@)),
    {
        match self {
            Shifter::Classic(_) => {},
            Shifter::Psola(shifter) => {
                shifter.synthesis_done(streams);
            },
        }
    }
}

impl PitchShifter for Shifter {
    open spec fn has_sample(&self) -> bool {
        shifter_has_sample(self@)
    }

    open spec fn is_ready(&self) -> bool {
        shifter_ready(self@)
    }

    open spec fn frame_at(&self, position: u64) -> Option<FrameOutput> {
        shifter_frame(self@, position)
    }

    fn clear_sample(&mut self)
        ensures
            final(self)@ == shifter_cleared(old(self)@),
    {
        match self {
            Shifter::Classic(shifter) => {
                shifter.clear_sample();
            },
            Shifter::Psola(shifter) => {
                shifter.clear_sample();
            },
        }
    }

    fn load_sample(&mut self, sample_buffer: &Vec<i64>, channel_number: usize, sample_rate: u32)
        ensures
            final(self)@ == shifter_loaded(
                old(self)@,
                sample_buffer@,
                channel_number as nat,
                sample_rate as nat,
            ),
    {
        match self {
            Shifter::Classic(shifter) => {
                shifter.load_sample(sample_buffer, channel_number, sample_rate);
            },
            Shifter::Psola(shifter) => {
                shifter.load_sample(sample_buffer, channel_number, sample_rate);
            },
        }
    }

    fn trigger(&mut self, sr_correction: u64, playback_rate: u64)
        ensures
            final(self)@ == shifter_triggered(
                old(self)@,
                sr_correction as nat,
                playback_rate as nat,
            ),
    {
        match self {
            Shifter::Classic(shifter) => {
                shifter.trigger(sr_correction, playback_rate);
            },
            Shifter::Psola(shifter) => {
                shifter.trigger(sr_correction, playback_rate);
            },
        }
    }

    fn ready(&self) -> (ready: bool) {
        match self {
            Shifter::Classic(shifter) => shifter.ready(),
            Shifter::Psola(shifter) => shifter.ready(),
        }
    }

    fn get_frame(&mut self, position: u64) -> (frame: Option<FrameOutput>) {
        match self {
            Shifter::Classic(shifter) => shifter.get_frame(position),
            Shifter::Psola(shifter) => shifter.get_frame(position),
        }
    }

    fn kind(&self) -> (kind: PitchShiftKind)
        ensures
            kind == shifter_kind(self@),
    {
        match self {
            Shifter::Classic(shifter) => shifter.kind(),
            Shifter::Psola(shifter) => shifter.kind(),
        }
    }

    fn get_position(&self, position: u64) -> (place: u64)
        ensures
            place == shifter_position(self@, position),
    {
        match self {
            Shifter::Classic(shifter) => shifter.get_position(position),
            Shifter::Psola(shifter) => shifter.get_position(position),
        }
    }
}

/// The frame that holds the given channel values.
pub open spec fn frame_of(values: Seq<i64>) -> FrameOutput {
    if values.len() == 1 {
        FrameOutput::Mono(values[0])
    } else if values.len() == 2 {
        FrameOutput::Stereo([values[0], values[1]])
    } else {
        FrameOutput::Unsupported
    }
}

impl From<Vec<i64>> for FrameOutput {
    fn from(value: Vec<i64>) -> (frame: Self) {
        if value.len() == 1 {
            FrameOutput::Mono(value[0])
        } else if value.len() == 2 {
            FrameOutput::Stereo([value[0], value[1]])
        } else {
            FrameOutput::Unsupported
        }
    }
}

impl vstd::std_specs::convert::FromSpecImpl<Vec<i64>> for FrameOutput {
    open spec fn obeys_from_spec() -> bool {
        true
    }

    open spec fn from_spec(value: Vec<i64>) -> Self {
        frame_of(value@)
    }
}

/// A frame made of one or two values holds exactly those values; one made
/// of any other number of values holds none.
pub proof fn lemma_frame_of_channels(values: Seq<i64>)
    ensures
        values.len() == 1 || values.len() == 2 ==> frame_of(values).channels() == values,
        !(values.len() == 1 || values.len() == 2) ==> frame_of(values).channels().len() == 0,
{
    if values.len() == 2 {
        let pair: [i64; 2] = [values[0], values[1]];
        assert(pair[0] == values[0]);
        assert(pair[1] == values[1]);
        assert(frame_of(values).channels() =~= values);
    } else if values.len() == 1 {
        assert(frame_of(values).channels() =~= values);
    }
}

} // verus!
