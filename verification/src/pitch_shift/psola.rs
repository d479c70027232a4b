//! Pitch-synchronous overlap-add.
//!
//! The shifter itself neither detects the pitch of a sample nor synthesises
//! the shifted stream: both are numerical work that is done for it. It says
//! what is to be done (`pitch_request`, `analysis_input`,
//! `synthesis_request`), takes the outcome (`pitch_detected`,
//! `synthesis_done`), and decides what follows from it:
//!
//! 1. `load_sample` keeps the sample and waits for its pitch.
//! 2. `pitch_detected` with a frequency makes the sample usable; without one
//!    the sample is dropped and the shifter stays silent.
//! 3. `trigger` asks for a stream synthesised for the note; the analysis of
//!    the sample is kept from one note to the next.
//! 4. `synthesis_done` stores the stream, and the shifter is ready.

use vstd::prelude::*;
use crate::fixed::ONE;
use crate::pitch_shift::{frame_of, FrameOutput, PitchShiftKind, PitchShifter};
use crate::utils::{scale, scaled};

verus! {

/// The power below which a signal is taken to have no pitch, as a level.
pub const POWER_THRESHOLD: i64 = 0x5_0000_0000;

/// The clarity that a pitch estimate must reach, as a level: a tenth.
pub const CLARITY_THRESHOLD: i64 = 0x1999_9999;

/// What the detection of the pitch of a sample works on.
pub struct PitchRequest {
    /// The signal: the first channel of the sample.
    pub signal: Vec<i64>,
    /// The size of the scratch space of the detector: twice the number of
    /// samples in the buffer.
    pub scratch_size: usize,
    /// Frames per second of the sample.
    pub sample_rate: u32,
    /// The power below which the signal has no pitch.
    pub power_threshold: i64,
    /// The clarity that the estimate must reach.
    pub clarity_threshold: i64,
}

/// What the synthesis of the stream of a note works with.
#[derive(Clone, Copy, Debug, PartialEq, Eq, Structural)]
pub struct SynthesisRequest {
    /// The speed at which the analysed sample is read: the sample-rate
    /// correction.
    pub speed: u64,
    /// The pitch period of the stream, in frames with 32 fractional bits:
    /// the period of the sample over the playback rate.
    pub wavelength: u64,
    /// The number of frames at the head of the synthesised stream that
    /// belong to the padding and are dropped.
    pub skip: u64,
}

/// The overlap-add shifter.
pub struct PsolaShifter {
    sample_buffer: Vec<i64>,
    channel_number: usize,
    sample_rate: u32,
    awaiting_pitch: bool,
    is_loaded: bool,
    source_length: u64,
    iter_samples: Option<Vec<Vec<i64>>>,
    awaiting_synthesis: bool,
    sr_correction: u64,
    playback_rate: u64,
}

/// The mathematical state of an overlap-add shifter.
pub struct PsolaState {
    /// The interleaved samples.
    pub buffer: Seq<i64>,
    /// Channels of the sample.
    pub channels: nat,
    /// Frames per second of the sample.
    pub sample_rate: nat,
    /// Whether the pitch of the sample is still to be detected.
    pub awaiting_pitch: bool,
    /// Whether the sample has a pitch and can be triggered.
    pub loaded: bool,
    /// The pitch period of the sample, in frames with 32 fractional bits.
    pub source_length: nat,
    /// The synthesised stream of each channel, once a note has one.
    pub streams: Option<Seq<Seq<i64>>>,
    /// Whether the stream of the current note is still to be synthesised.
    pub awaiting_synthesis: bool,
    /// The sample-rate correction of the current note.
    pub sr_correction: nat,
    /// The playback rate of the current note.
    pub playback_rate: nat,
}

/// The state of a shifter without a sample.
pub open spec fn empty_psola(sr_correction: nat, playback_rate: nat) -> PsolaState {
    PsolaState {
        buffer: Seq::empty(),
        channels: 0,
        sample_rate: 0,
        awaiting_pitch: false,
        loaded: false,
        source_length: 0,
        streams: None,
        awaiting_synthesis: false,
        sr_correction,
        playback_rate,
    }
}

/// The number of samples that channel `channel` has in an interleaved
/// buffer of `len` samples.
pub open spec fn channel_len(len: nat, channels: nat, channel: nat) -> nat {
    if channels == 0 || channel >= len {
        0
    } else {
        ((len - channel - 1) / (channels as int) + 1) as nat
    }
}

/// The samples of one channel of an interleaved buffer: every
/// `channels`-th sample, from the one at `channel` on.
pub open spec fn deinterleaved(buffer: Seq<i64>, channels: nat, channel: nat) -> Seq<i64> {
    Seq::new(
        channel_len(buffer.len(), channels, channel),
        |i: int| buffer[channel + i * channels],
    )
}

/// A sequence of `count` zeros.
pub open spec fn silence(count: nat) -> Seq<i64> {
    Seq::new(count, |i: int| 0i64)
}

/// The pitch period of a sample of `sample_rate` frames per second whose
/// pitch is `frequency` (in Hz, with 32 fractional bits): the rate over the
/// frequency, in frames with 32 fractional bits, saturated.
pub open spec fn wavelength_of(sample_rate: nat, frequency: nat) -> nat {
    let exact = ((sample_rate * 0x1_0000_0000_0000_0000) as int) / (frequency as int);
    if exact > u64::MAX {
        u64::MAX as nat
    } else {
        exact as nat
    }
}

/// The number of whole frames of padding that stand before a channel of the
/// analysed sample: one more than the whole frames of a pitch period.
pub open spec fn padding_of(source_length: nat) -> nat {
    source_length / (ONE as nat) + 1
}

/// The pitch period that the stream of a note is synthesised with: the
/// period of the sample over the playback rate, saturated; a playback rate
/// of zero gives the longest period there is.
pub open spec fn target_wavelength(source_length: nat, playback_rate: nat) -> nat {
    if playback_rate == 0 {
        u64::MAX as nat
    } else {
        let exact = (source_length * ONE) / (playback_rate as int);
        if exact > u64::MAX {
            u64::MAX as nat
        } else {
            exact as nat
        }
    }
}

/// The frame of a stream that lies nearest to a position with 32 fractional
/// bits; a position half-way between two frames goes to the later one.
pub open spec fn nearest_frame(position: int) -> int {
    (position + ONE / 2) / (ONE as int)
}

/// A stream without its first `skip` samples.
pub open spec fn without_head(stream: Seq<i64>, skip: nat) -> Seq<i64> {
    if skip >= stream.len() {
        Seq::empty()
    } else {
        stream.subrange(skip as int, stream.len() as int)
    }
}

/// The values of all streams at `index`, if every stream reaches that far.
pub open spec fn stream_values(streams: Seq<Seq<i64>>, index: int) -> Option<Seq<i64>> {
    if forall|channel: int|
        0 <= channel < streams.len() ==> index < (#[trigger] streams[channel]).len() {
        Some(Seq::new(streams.len(), |channel: int| streams[channel][index]))
    } else {
        None
    }
}

/// The frame that a shifter in state `s` has at `position`.
pub open spec fn psola_frame(s: PsolaState, position: u64) -> Option<FrameOutput> {
    if s.loaded && s.streams is Some {
        match stream_values(
            s.streams.unwrap(),
            nearest_frame(scaled(position as int, s.sr_correction as int)),
        ) {
            Some(values) => Some(frame_of(values)),
            None => None,
        }
    } else {
        None
    }
}

/// The state after loading a sample: the sample is kept and waits for its
/// pitch. A sample without channels has no signal to find a pitch in, and
/// leaves the shifter empty.
pub open spec fn psola_loaded(
    s: PsolaState,
    buffer: Seq<i64>,
    channels: nat,
    sample_rate: nat,
) -> PsolaState {
    if channels == 0 {
        empty_psola(s.sr_correction, s.playback_rate)
    } else {
        PsolaState {
            buffer,
            channels,
            sample_rate,
            awaiting_pitch: true,
            ..empty_psola(s.sr_correction, s.playback_rate)
        }
    }
}

/// The state after the detection of the pitch: with a frequency above zero
/// the sample is usable and has a pitch period; without one it is dropped.
/// A shifter that does not wait for a pitch stays as it is.
pub open spec fn psola_pitch_detected(s: PsolaState, frequency: Option<u64>) -> PsolaState {
    if !s.awaiting_pitch {
        s
    } else {
        match frequency {
            Some(f) if f > 0 => PsolaState {
                awaiting_pitch: false,
                loaded: true,
                source_length: wavelength_of(s.sample_rate, f as nat),
                streams: None,
                awaiting_synthesis: false,
                ..s
            },
            _ => empty_psola(s.sr_correction, s.playback_rate),
        }
    }
}

/// The state after a trigger: with a usable sample, the rates of the note
/// are taken, the stream of the note before is dropped and a new one is
/// awaited; without one, nothing changes.
pub open spec fn psola_triggered(
    s: PsolaState,
    sr_correction: nat,
    playback_rate: nat,
) -> PsolaState {
    if s.loaded {
        PsolaState { sr_correction, playback_rate, streams: None, awaiting_synthesis: true, ..s }
    } else {
        s
    }
}

/// The state after the synthesis of the stream of a note: each stream is
/// kept without the padding at its head, and the shifter is ready. A
/// shifter that does not wait for a stream stays as it is.
pub open spec fn psola_synthesis_done(s: PsolaState, streams: Seq<Seq<i64>>) -> PsolaState {
    if s.loaded && s.awaiting_synthesis {
        PsolaState {
            streams: Some(
                Seq::new(
                    streams.len(),
                    |channel: int| without_head(streams[channel], padding_of(s.source_length)),
                ),
            ),
            awaiting_synthesis: false,
            ..s
        }
    } else {
        s
    }
}

/// Whether a shifter in state `s` hands out frames.
pub open spec fn psola_ready(s: PsolaState) -> bool {
    s.loaded && s.streams is Some
}

/// The signal that the analysis of channel `channel` works on: the
/// padding, then the samples of the channel. A shifter without a usable
/// sample has no such signal, nor has a channel that the sample lacks.
pub open spec fn analysis_signal(s: PsolaState, channel: nat) -> Seq<i64> {
    if s.loaded && channel < s.channels {
        silence(padding_of(s.source_length)) + deinterleaved(s.buffer, s.channels, channel)
    } else {
        Seq::empty()
    }
}

/// Whether `request` is what a shifter in state `s` asks of the detection of
/// the pitch: nothing, unless it waits for the pitch of its sample; else the
/// first channel of the sample as the signal, twice the number of samples of
/// the buffer as the size of the scratch space (saturated), the rate of the
/// sample, and the two thresholds.
pub open spec fn is_pitch_request_of(request: Option<PitchRequest>, s: PsolaState) -> bool {
    match request {
        None => !s.awaiting_pitch,
        Some(r) => {
            &&& s.awaiting_pitch
            &&& r.signal@ == deinterleaved(s.buffer, s.channels, 0)
            &&& r.scratch_size == if s.buffer.len() * 2 > usize::MAX {
                usize::MAX as int
            } else {
                (s.buffer.len() * 2) as int
            }
            &&& r.sample_rate == s.sample_rate
            &&& r.power_threshold == POWER_THRESHOLD
            &&& r.clarity_threshold == CLARITY_THRESHOLD
        },
    }
}

/// What a shifter in state `s` asks of the synthesis: nothing, unless it
/// has a usable sample and waits for the stream of a note; else the
/// sample-rate correction as the speed, the pitch period of the stream, and
/// the length of the padding to be dropped.
pub open spec fn synthesis_request_of(s: PsolaState) -> Option<SynthesisRequest> {
    if s.loaded && s.awaiting_synthesis {
        Some(
            SynthesisRequest {
                speed: s.sr_correction as u64,
                wavelength: target_wavelength(s.source_length, s.playback_rate) as u64,
                skip: padding_of(s.source_length) as u64,
            },
        )
    } else {
        None
    }
}

/// The views of the streams of a shifter.
pub open spec fn stream_views(streams: Seq<Vec<i64>>) -> Seq<Seq<i64>> {
    Seq::new(streams.len(), |channel: int| streams[channel]@)
}

impl View for PsolaShifter {
    type V = PsolaState;

    closed spec fn view(&self) -> PsolaState {
        PsolaState {
            buffer: self.sample_buffer@,
            channels: self.channel_number as nat,
            sample_rate: self.sample_rate as nat,
            awaiting_pitch: self.awaiting_pitch,
            loaded: self.is_loaded,
            source_length: self.source_length as nat,
            streams: match self.iter_samples {
                Some(streams) => Some(stream_views(streams@)),
                None => None,
            },
            awaiting_synthesis: self.awaiting_synthesis,
            sr_correction: self.sr_correction as nat,
            playback_rate: self.playback_rate as nat,
        }
    }
}

/// The samples of one channel of an interleaved buffer.
pub fn channel_samples(buffer: &Vec<i64>, channels: usize, channel: usize) -> (samples: Vec<i64>)
    ensures
        samples@ == deinterleaved(buffer@, channels as nat, channel as nat),
{
    let mut samples: Vec<i64> = Vec::new();
    if channels == 0 || channel >= buffer.len() {
        assert(samples@ =~= deinterleaved(buffer@, channels as nat, channel as nat));
        return samples;
    }
    let len: usize = buffer.len();
    let ghost total = channel_len(len as nat, channels as nat, channel as nat);
    proof {
        lemma_channel_len(len as nat, channels as nat, channel as nat);
    }
    let mut index: usize = channel;
    let mut done: bool = false;
    while !done
        invariant
            channels > 0,
            len == buffer.len(),
            total == channel_len(len as nat, channels as nat, channel as nat),
            channel + (total - 1) * channels < len <= channel + total * channels,
            !done ==> index == channel + samples@.len() * channels,
            !done ==> samples@.len() < total,
            done ==> samples@.len() == total,
            forall|i: int|
                0 <= i < samples@.len() ==> samples@[i] == #[trigger] buffer@[channel + i
                    * channels],
        decreases total - samples@.len() + (if done { 0int } else { 1int }),
    {
        let ghost taken = samples@.len();
        assert(index < len) by (nonlinear_arith)
            requires
                index == channel + taken * channels,
                taken <= total - 1,
                channel + (total - 1) * channels < len,
                channels > 0,
        ;
        samples.push(buffer[index]);
        if len - index > channels {
            index = index + channels;
            assert(index == channel + (taken + 1) * channels) by (nonlinear_arith)
                requires
                    index == channel + taken * channels + channels,
            ;
            assert(taken + 1 < total) by (nonlinear_arith)
                requires
                    index == channel + (taken + 1) * channels,
                    index < len,
                    len <= channel + total * channels,
                    channels > 0,
            ;
        } else {
            assert(taken + 1 >= total) by (nonlinear_arith)
                requires
                    len - (channel + taken * channels) <= channels,
                    channel + (total - 1) * channels < len,
                    channels > 0,
            ;
            done = true;
        }
    }
    assert(samples@ =~= deinterleaved(buffer@, channels as nat, channel as nat));
    samples
}

/// The last sample of a channel lies inside the buffer, and a further one
/// would lie outside.
proof fn lemma_channel_len(len: nat, channels: nat, channel: nat)
    requires
        channels > 0,
        channel < len,
    ensures
        channel_len(len, channels, channel) >= 1,
        channel + (channel_len(len, channels, channel) - 1) * channels < len,
        len <= channel + channel_len(len, channels, channel) * channels,
{
    let span = (len - channel - 1) as int;
    let q = span / (channels as int);
    vstd::arithmetic::div_mod::lemma_fundamental_div_mod(span, channels as int);
    vstd::arithmetic::div_mod::lemma_div_pos_is_pos(span, channels as int);
    vstd::arithmetic::div_mod::lemma_mod_bound(span, channels as int);
    assert(span == channels * q + span % (channels as int));
    assert(channels * q == q * channels) by (nonlinear_arith);
    assert((q + 1) * channels == q * channels + channels) by (nonlinear_arith);
}

/// Drops the first `skip` samples of a stream.
pub fn drop_head(stream: Vec<i64>, skip: u64) -> (rest: Vec<i64>)
    ensures
        rest@ == without_head(stream@, skip as nat),
{
    let len: usize = stream.len();
    let mut rest: Vec<i64> = Vec::new();
    if skip >= len as u64 {
        assert(rest@ =~= without_head(stream@, skip as nat));
        return rest;
    }
    let mut index: usize = skip as usize;
    while index < len
        invariant
            len == stream.len(),
            skip <= index <= len,
            rest@ =~= stream@.subrange(skip as int, index as int),
        decreases len - index,
    {
        rest.push(stream[index]);
        index = index + 1;
    }
    rest
}

impl PsolaShifter {
    /// A shifter without a sample.
    pub fn new() -> (shifter: Self)
        ensures
            shifter@ == empty_psola(ONE as nat, ONE as nat),
    {
        Self {
            sample_buffer: Vec::new(),
            channel_number: 0,
            sample_rate: 0,
            awaiting_pitch: false,
            is_loaded: false,
            source_length: 0,
            iter_samples: None,
            awaiting_synthesis: false,
            sr_correction: ONE as u64,
            playback_rate: ONE as u64,
        }
    }

    /// Whether the shifter waits for the pitch of its sample.
    pub fn awaits_pitch(&self) -> (awaited: bool)
        ensures
            awaited == self@.awaiting_pitch,
    {
        self.awaiting_pitch
    }

    /// What the detection of the pitch is to work on, while the shifter
    /// waits for the pitch of its sample.
    pub fn pitch_request(&self) -> (request: Option<PitchRequest>)
        ensures
            is_pitch_request_of(request, self@),
    {
        if !self.awaiting_pitch {
            return None;
        }
        let scratch_size: usize = match self.sample_buffer.len().checked_mul(2) {
            Some(size) => size,
            None => usize::MAX,
        };
        Some(
            PitchRequest {
                signal: channel_samples(&self.sample_buffer, self.channel_number, 0),
                scratch_size,
                sample_rate: self.sample_rate,
                power_threshold: POWER_THRESHOLD,
                clarity_threshold: CLARITY_THRESHOLD,
            },
        )
    }

    /// Takes the outcome of the detection: the frequency of the pitch in
    /// Hz, with 32 fractional bits, or nothing where no pitch was found.
    ///
    /// With a frequency above zero the sample becomes usable, and its pitch
    /// period is the sample rate over the frequency. Without one the sample
    /// is dropped. A shifter that does not wait for a pitch ignores the
    /// call.
    pub fn pitch_detected(&mut self, frequency: Option<u64>)
        ensures
            final(self)@ == psola_pitch_detected(old(self)@, frequency),
    {
        if !self.awaiting_pitch {
            return ;
        }
        match frequency {
            Some(f) if f > 0 => {
                let exact: u128 = (self.sample_rate as u128) * 0x1_0000_0000_0000_0000u128 / (
                f as u128);
                self.source_length = if exact > 0xffff_ffff_ffff_ffffu128 {
                    u64::MAX
                } else {
                    exact as u64
                };
                self.awaiting_pitch = false;
                self.is_loaded = true;
                self.iter_samples = None;
                self.awaiting_synthesis = false;
            },
            _ => {
                self.clear_sample();
            },
        }
    }

    /// The signal that the analysis of channel `channel` works on; empty
    /// where there is none.
    pub fn analysis_input(&self, channel: usize) -> (signal: Vec<i64>)
        ensures
            signal@ == analysis_signal(self@, channel as nat),
    {
        let mut signal: Vec<i64> = Vec::new();
        if !self.is_loaded || channel >= self.channel_number {
            return signal;
        }
        let padding: u64 = self.source_length / 0x1_0000_0000u64 + 1;
        let mut pushed: u64 = 0;
        while pushed < padding
            invariant
                pushed <= padding,
                signal@ =~= silence(pushed as nat),
            decreases padding - pushed,
        {
            signal.push(0);
            pushed = pushed + 1;
        }
        let mut samples: Vec<i64> = channel_samples(
            &self.sample_buffer,
            self.channel_number,
            channel,
        );
        signal.append(&mut samples);
        signal
    }

    /// What the synthesis of the stream of the current note is to work
    /// with, while the shifter waits for that stream.
    pub fn synthesis_request(&self) -> (request: Option<SynthesisRequest>)
        ensures
            request == synthesis_request_of(self@),
    {
        if !(self.is_loaded && self.awaiting_synthesis) {
            return None;
        }
        let wavelength: u64 = if self.playback_rate == 0 {
            u64::MAX
        } else {
            let exact: u128 = (self.source_length as u128) * 0x1_0000_0000u128 / (
            self.playback_rate as u128);
            if exact > 0xffff_ffff_ffff_ffffu128 {
                u64::MAX
            } else {
                exact as u64
            }
        };
        Some(
            SynthesisRequest {
                speed: self.sr_correction,
                wavelength,
                skip: self.source_length / 0x1_0000_0000u64 + 1,
            },
        )
    }

    /// Takes the synthesised stream of each channel, drops the padding at
    /// its head, and makes the shifter ready. A shifter that does not wait
    /// for a stream ignores the call.
    pub fn synthesis_done(&mut self, streams: Vec<Vec<i64>>)
        ensures
            final(self)@ == psola_synthesis_done(old(self)@, stream_views(streams@)),
    {
        if !(self.is_loaded && self.awaiting_synthesis) {
            return ;
        }
        let skip: u64 = self.source_length / 0x1_0000_0000u64 + 1;
        let ghost given = streams@;
        let mut streams = streams;
        let mut kept: Vec<Vec<i64>> = Vec::new();
        let count: usize = streams.len();
        let mut channel: usize = 0;
        while channel < count
            invariant
                channel <= count,
                count == given.len(),
                streams@.len() == count,
                forall|i: int| channel <= i < count ==> streams@[i] == given[i],
                kept@.len() == channel,
                forall|i: int|
                    0 <= i < channel ==> (#[trigger] kept@[i])@ == without_head(
                        given[i]@,
                        skip as nat,
                    ),
            decreases count - channel,
        {
            let mut stream: Vec<i64> = Vec::new();
            std::mem::swap(&mut stream, &mut streams[channel]);
            kept.push(drop_head(stream, skip));
            channel = channel + 1;
        }
        proof {
            assert(stream_views(kept@) =~= Seq::new(
                stream_views(given).len(),
                |channel: int| without_head(stream_views(given)[channel], skip as nat),
            ));
        }
        self.iter_samples = Some(kept);
        self.awaiting_synthesis = false;
    }
}

impl PitchShifter for PsolaShifter {
    open spec fn has_sample(&self) -> bool {
        self@.loaded
    }

    open spec fn is_ready(&self) -> bool {
        psola_ready(self@)
    }

    open spec fn frame_at(&self, position: u64) -> Option<FrameOutput> {
        psola_frame(self@, position)
    }

    fn clear_sample(&mut self)
        ensures
            final(self)@ == empty_psola(old(self)@.sr_correction, old(self)@.playback_rate),
    {
        self.sample_buffer = Vec::new();
        self.channel_number = 0;
        self.sample_rate = 0;
        self.awaiting_pitch = false;
        self.is_loaded = false;
        self.source_length = 0;
        self.iter_samples = None;
        self.awaiting_synthesis = false;
    }

    /// Keeps the sample and waits for its pitch. A sample without channels
    /// has no signal to find a pitch in, and is dropped at once.
    fn load_sample(&mut self, sample_buffer: &Vec<i64>, channel_number: usize, sample_rate: u32)
        ensures
            final(self)@ == psola_loaded(
                old(self)@,
                sample_buffer@,
                channel_number as nat,
                sample_rate as nat,
            ),
    {
        self.clear_sample();
        if channel_number > 0 {
            self.sample_buffer = sample_buffer.clone();
            self.channel_number = channel_number;
            self.sample_rate = sample_rate;
            self.awaiting_pitch = true;
        }
    }

    /// Arms the shifter for a new note: the stream of the note before is
    /// dropped, and a new one is asked for.
    fn trigger(&mut self, sr_correction: u64, playback_rate: u64)
        ensures
            final(self)@ == psola_triggered(old(self)@, sr_correction as nat, playback_rate as nat),
    {
        if !self.is_loaded {
            return ;
        }
        self.playback_rate = playback_rate;
        self.sr_correction = sr_correction;
        self.iter_samples = None;
        self.awaiting_synthesis = true;
    }

    fn ready(&self) -> (ready: bool) {
        self.is_loaded && self.iter_samples.is_some()
    }

    fn get_frame(&mut self, position: u64) -> (frame: Option<FrameOutput>) {
        if !self.is_loaded {
            return None;
        }
        let streams: &Vec<Vec<i64>> = match &self.iter_samples {
            Some(streams) => streams,
            None => {
                return None;
            },
        };
        let place: u64 = scale(position, self.sr_correction);
        let index: u64 = ((place as u128 + 0x8000_0000u128) / 0x1_0000_0000u128) as u64;
        let mut frame: Vec<i64> = Vec::new();
        let mut channel: usize = 0;
        while channel < streams.len()
            invariant
                channel <= streams.len(),
                self.iter_samples == Some(*streams),
                self.is_loaded,
                index == nearest_frame(scaled(position as int, self@.sr_correction as int)),
                frame@.len() == channel,
                forall|i: int|
                    0 <= i < channel ==> index < (#[trigger] stream_views(streams@)[i]).len()
                        && frame@[i] == stream_views(streams@)[i][index as int],
            decreases streams.len() - channel,
        {
            let stream: &Vec<i64> = &streams[channel];
            if index >= stream.len() as u64 {
                assert(stream_views(streams@)[channel as int] == stream@);
                assert(stream_values(stream_views(streams@), index as int) is None);
                return None;
            }
            assert(stream_views(streams@)[channel as int] == stream@);
            frame.push(stream[index as usize]);
            channel = channel + 1;
        }
        proof {
            let values = stream_values(stream_views(streams@), index as int);
            assert(values is Some);
            assert(values.unwrap() =~= frame@);
        }
        Some(FrameOutput::from(frame))
    }

    fn kind(&self) -> (kind: PitchShiftKind)
        ensures
            kind == PitchShiftKind::Psola,
    {
        PitchShiftKind::Psola
    }

    fn get_position(&self, position: u64) -> (place: u64)
        ensures
            place == scaled(position as int, self@.sr_correction as int),
    {
        scale(position, self.sr_correction)
    }
}

} // verus!
