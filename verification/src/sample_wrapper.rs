//! The player of one sample slot: it owns the envelope and the pitch
//! shifter of the voice, and combines them with the gains of the voice and
//! the blend crossfade into the output of the voice.

use vstd::prelude::*;
use crate::adsr::{
    advanced, after_note_off, after_note_on, after_reset, initial_state, AdsrStage, EnvelopeState,
    MultiChannelAdsr,
};
use crate::fixed::{level_add, level_mul, level_product, level_sum, ONE, MICROS_PER_SECOND};
use crate::params::{HardKickSamplerParams, SampleWrapperParams};
use crate::pitch_shift::{
    fresh_shifter, lemma_clearing_is_idempotent, shifter_asks_for_pitch, shifter_cleared, shifter_frame, shifter_kind, shifter_loaded,
    shifter_awaits_pitch, shifter_pitch_detected, shifter_position, shifter_ready, shifter_synthesis_done, shifter_synthesis_request,
    shifter_triggered, FrameOutput, PitchShiftKind, PitchShifter, Shifter, ShifterState,
};
use crate::pitch_shift::psola::{stream_views, PitchRequest, SynthesisRequest};
use crate::tasks::AudioData;
use crate::utils::{
    blend_gain, get_blend_value, playback_rate_of, semitone_offset_to_playback_rate,
};

verus! {

/// The note at which a sample sounds at its own pitch: middle C.
pub const BASE_NOTE: u8 = 60;

/// The host sample rate that a player assumes until it is told another.
pub const DEFAULT_SAMPLE_RATE: u32 = 48000;

/// The player of one sample slot.
pub struct SamplePlayer {
    /// The slot of the player.
    index: usize,
    /// The samples of the slot, once a sample is loaded.
    buffer: Option<Vec<i64>>,
    /// Frames per second of the host.
    host_sample_rate: u32,
    /// Frames per second of the sample.
    sample_rate: u32,
    /// The note that sounds, as its distance from the base note in
    /// semitones.
    midi_note: Option<i32>,
    /// Channels of the host.
    host_channels: usize,
    /// Channels of the sample.
    sample_channels: usize,
    /// The envelope of the voice.
    adsr: MultiChannelAdsr,
    /// The pitch shifter of the voice.
    pitch_shifter: Shifter,
    /// Where the sample came from.
    sample_path: Option<String>,
    /// The position in the sample that the voice has reached, in frames.
    playback_position: u64,
}

/// The mathematical state of a player.
pub struct VoiceState {
    /// The slot of the player.
    pub index: nat,
    /// The samples of the slot, once a sample is loaded.
    pub buffer: Option<Seq<i64>>,
    /// Frames per second of the host.
    pub host_sample_rate: nat,
    /// Frames per second of the sample.
    pub sample_rate: nat,
    /// The note that sounds, as its distance from the base note.
    pub midi_note: Option<int>,
    /// Channels of the host.
    pub host_channels: nat,
    /// Channels of the sample.
    pub sample_channels: nat,
    /// The envelope of the voice.
    pub envelope: EnvelopeState,
    /// The pitch shifter of the voice.
    pub shifter: ShifterState,
    /// Where the sample came from.
    pub sample_path: Option<Seq<char>>,
    /// The position in the sample that the voice has reached, in frames.
    pub playback_position: nat,
}

impl View for SamplePlayer {
    type V = VoiceState;

    closed spec fn view(&self) -> VoiceState {
        VoiceState {
            index: self.index as nat,
            buffer: match self.buffer {
                Some(buffer) => Some(buffer@),
                None => None,
            },
            host_sample_rate: self.host_sample_rate as nat,
            sample_rate: self.sample_rate as nat,
            midi_note: match self.midi_note {
                Some(note) => Some(note as int),
                None => None,
            },
            host_channels: self.host_channels as nat,
            sample_channels: self.sample_channels as nat,
            envelope: self.adsr@,
            shifter: self.pitch_shifter@,
            sample_path: match self.sample_path {
                Some(path) => Some(path@),
                None => None,
            },
            playback_position: self.playback_position as nat,
        }
    }
}

/// The state of a player that was just made for slot `index`.
pub open spec fn new_voice(index: nat) -> VoiceState {
    VoiceState {
        index,
        buffer: None,
        host_sample_rate: DEFAULT_SAMPLE_RATE as nat,
        sample_rate: 0,
        midi_note: None,
        host_channels: 0,
        sample_channels: 0,
        envelope: initial_state(DEFAULT_SAMPLE_RATE as nat),
        shifter: fresh_shifter(PitchShiftKind::Classic),
        sample_path: None,
        playback_position: 0,
    }
}

/// The shift of the pitch of a voice in semitones: the fine tuning of the
/// slot and, for a tonal slot, the distance of the note that sounds from the
/// root note of the sample.
pub open spec fn semitone_shift(midi_note: Option<int>, p: SampleWrapperParams) -> int {
    p.semitone_offset + if p.is_tonal {
        (match midi_note {
            Some(note) => note,
            None => 0,
        }) - p.root_note
    } else {
        0
    }
}

/// The ratio of the rate of a sample to the rate of the host, in fixed
/// point, rounded down and saturated; a host rate of zero gives the largest
/// ratio there is.
pub open spec fn sr_correction_of(sample_rate: nat, host_sample_rate: nat) -> int {
    if host_sample_rate == 0 {
        u64::MAX as int
    } else {
        let exact = (sample_rate * ONE) / (host_sample_rate as int);
        if exact > u64::MAX {
            u64::MAX as int
        } else {
            exact
        }
    }
}

/// Whether a voice renders nothing: its envelope idles, its slot is muted,
/// or no sample is loaded.
pub open spec fn voice_silent(v: VoiceState, p: SampleWrapperParams) -> bool {
    v.envelope.stage == AdsrStage::Idle || p.muted || v.buffer is None
}

/// The shifter of a voice after a trigger with the rates that the voice has
/// for the note that sounds.
pub open spec fn retriggered(v: VoiceState, p: SampleWrapperParams) -> ShifterState {
    shifter_triggered(
        v.shifter,
        sr_correction_of(v.sample_rate, v.host_sample_rate) as nat,
        playback_rate_of(semitone_shift(v.midi_note, p)) as nat,
    )
}

/// The state after a note-on: with a sample loaded, the note is taken, the
/// envelope starts its attack and the shifter is triggered; without one,
/// nothing changes.
pub open spec fn started(v: VoiceState, p: SampleWrapperParams, note: u8) -> VoiceState {
    if v.buffer is Some {
        let noted = VoiceState {
            midi_note: Some(note as int - BASE_NOTE as int),
            envelope: after_note_on(v.envelope),
            ..v
        };
        VoiceState { shifter: retriggered(noted, p), ..noted }
    } else {
        v
    }
}

/// The state after the buffers of a voice were replaced: with a sample, the
/// shifter is loaded with it; without one, the shifter is cleared.
pub open spec fn with_buffers(v: VoiceState, audio: Option<AudioData>) -> VoiceState {
    match audio {
        Some(data) => VoiceState {
            buffer: Some(data.data@),
            sample_channels: data.channels as nat,
            sample_rate: data.sample_rate as nat,
            shifter: shifter_loaded(
                v.shifter,
                data.data@,
                data.channels as nat,
                data.sample_rate as nat,
            ),
            ..v
        },
        None => VoiceState {
            buffer: None,
            sample_channels: 0,
            shifter: shifter_cleared(v.shifter),
            ..v
        },
    }
}

impl SamplePlayer {
    /// The parameters of the slot of this player.
    fn get_params<'a>(&self, params: &'a HardKickSamplerParams) -> (slot: &'a SampleWrapperParams)
        requires
            self@.index < params.samples@.len(),
        ensures
            *slot == params.samples@[self@.index as int],
    {
        &params.samples[self.index]
    }

    /// A player for slot `index`, without a sample.
    pub fn new(params: &HardKickSamplerParams, index: usize) -> (player: Self)
        requires
            index < params.samples@.len(),
        ensures
            player@ == new_voice(index as nat),
    {
        Self {
            index,
            buffer: None,
            sample_rate: 0,
            host_sample_rate: DEFAULT_SAMPLE_RATE,
            midi_note: None,
            host_channels: 0,
            sample_channels: 0,
            adsr: MultiChannelAdsr::new(DEFAULT_SAMPLE_RATE),
            pitch_shifter: Shifter::new(PitchShiftKind::Classic),
            sample_path: None,
            playback_position: 0,
        }
    }

    /// Starts the note `note`, if a sample is loaded.
    pub fn start_playing(&mut self, params: &HardKickSamplerParams, note: u8, _velocity: i64)
        requires
            old(self)@.index < params.samples@.len(),
        ensures
            final(self)@ == started(old(self)@, params.samples@[old(self)@.index as int], note),
    {
        if self.buffer.is_some() {
            let semitone_offset: i32 = note as i32 - BASE_NOTE as i32;
            self.midi_note = Some(semitone_offset);
            self.adsr.note_on();
            let playback_rate: u64 = self.get_playback_rate(params);
            let sr_correction: u64 = self.get_sr_correction();
            self.pitch_shifter.trigger(sr_correction, playback_rate);
        }
    }

    /// Ends the note: the envelope starts its release, and the shifter runs
    /// on through it.
    pub fn stop_playing(&mut self)
        ensures
            final(self)@ == (VoiceState {
                envelope: after_note_off(old(self)@.envelope),
                ..old(self)@
            }),
    {
        self.adsr.note_off();
    }

    /// Tells the player the sample rate of the host.
    pub fn change_sample_rate_output(&mut self, sample_rate: u32)
        ensures
            final(self)@ == (VoiceState {
                host_sample_rate: sample_rate as nat,
                envelope: EnvelopeState {
                    sample_rate: sample_rate as nat,
                    ..old(self)@.envelope
                },
                ..old(self)@
            }),
    {
        self.host_sample_rate = sample_rate;
        self.adsr.set_sample_rate(sample_rate);
    }

    /// Tells the player the number of channels of the host.
    pub fn change_channel_number(&mut self, num_channel: usize)
        ensures
            final(self)@ == (VoiceState { host_channels: num_channel as nat, ..old(self)@ }),
    {
        self.host_channels = num_channel;
    }

    /// Replaces the sample of the player, or drops it.
    fn update_buffers(&mut self, audio_data: Option<AudioData>)
        ensures
            final(self)@ == with_buffers(old(self)@, audio_data),
    {
        match audio_data {
            Some(data) => {
                self.pitch_shifter.load_sample(&data.data, data.channels as usize, data.sample_rate);
                self.sample_channels = data.channels as usize;
                self.sample_rate = data.sample_rate;
                self.buffer = Some(data.data);
            },
            None => {
                self.buffer = None;
                self.sample_channels = 0;
                self.pitch_shifter.clear_sample();
            },
        }
    }

    /// Takes a decoded sample and the path that it came from.
    pub fn load_and_set_audio_file(&mut self, file_path: &str, audio_data: AudioData)
        ensures
            final(self)@ == (VoiceState {
                sample_path: Some(file_path@),
                ..with_buffers(old(self)@, Some(audio_data))
            }),
    {
        self.update_buffers(Some(audio_data));
        self.sample_path = Some(file_path.to_owned());
    }

    /// Drops the sample and the path, and brings the envelope to rest.
    pub fn clear_sample(&mut self)
        ensures
            final(self)@ == (VoiceState {
                sample_rate: 0,
                envelope: after_reset(old(self)@.envelope),
                sample_path: None,
                ..with_buffers(old(self)@, None)
            }),
    {
        self.update_buffers(None);
        self.sample_rate = 0;
        self.adsr.reset();
        self.sample_path = None;
    }

    /// The path of the sample of the slot, if it has one: the file that a
    /// restored slot is to be loaded from.
    pub fn sample_path(&self) -> (path: Option<&String>)
        ensures
            path is Some == self@.sample_path is Some,
            path matches Some(p) ==> Some(p@) == self@.sample_path,
    {
        self.sample_path.as_ref()
    }

    /// Takes the sample that was decoded from the stored path of the slot.
    pub fn load_preset_sample(&mut self, audio_data: AudioData)
        ensures
            final(self)@ == with_buffers(old(self)@, Some(audio_data)),
    {
        self.update_buffers(Some(audio_data));
    }

    /// The playback rate of the voice: two to the power of a twelfth of its
    /// shift in semitones.
    pub fn get_playback_rate(&self, params: &HardKickSamplerParams) -> (rate: u64)
        requires
            self@.index < params.samples@.len(),
        ensures
            rate == playback_rate_of(
                semitone_shift(self@.midi_note, params.samples@[self@.index as int]),
            ),
    {
        let slot: &SampleWrapperParams = self.get_params(params);
        let param_note_offset: i64 = slot.semitone_offset as i64;
        let midi_note_offset: i64 = if slot.is_tonal {
            let midi_offset: i64 = match self.midi_note {
                Some(note) => note as i64,
                None => 0,
            };
            midi_offset - slot.root_note as i64
        } else {
            0
        };
        semitone_offset_to_playback_rate(param_note_offset + midi_note_offset)
    }

    /// The ratio of the rate of the sample to the rate of the host.
    pub fn get_sr_correction(&self) -> (correction: u64)
        ensures
            correction == sr_correction_of(self@.sample_rate, self@.host_sample_rate),
    {
        if self.host_sample_rate == 0 {
            u64::MAX
        } else {
            let exact: u64 = (self.sample_rate as u64) * 0x1_0000_0000u64 / (
            self.host_sample_rate as u64);
            exact
        }
    }

    /// Drops the sample and every trace of the note.
    pub fn cleanup_wrapper(&mut self)
        ensures
            final(self)@ == (VoiceState {
                midi_note: None,
                envelope: after_reset(old(self)@.envelope),
                ..with_buffers(old(self)@, None)
            }),
    {
        self.update_buffers(None);
        self.midi_note = None;
        self.adsr.reset();
        self.pitch_shifter.clear_sample();
        proof {
            lemma_clearing_is_idempotent(old(self)@.shifter);
        }
    }

    /// Ends the note at once; the sample stays loaded.
    pub fn reset(&mut self)
        ensures
            final(self)@ == (VoiceState {
                midi_note: None,
                envelope: after_reset(old(self)@.envelope),
                ..old(self)@
            }),
    {
        self.adsr.reset();
        self.midi_note = None;
    }

    /// Whether the slot is muted.
    pub fn is_muted(&self, params: &HardKickSamplerParams) -> (muted: bool)
        requires
            self@.index < params.samples@.len(),
        ensures
            muted == params.samples@[self@.index as int].muted,
    {
        self.get_params(params).muted
    }

    /// Whether the voice renders nothing.
    pub fn is_silent(&self, params: &HardKickSamplerParams) -> (silent: bool)
        requires
            self@.index < params.samples@.len(),
        ensures
            silent == voice_silent(self@, params.samples@[self@.index as int]),
    {
        self.adsr.is_idling() || self.is_muted(params) || self.buffer.is_none()
    }

    /// The slot of the player.
    pub fn index(&self) -> (index: usize)
        ensures
            index == self@.index,
    {
        self.index
    }

    /// The envelope of the voice.
    pub fn envelope(&self) -> (adsr: &MultiChannelAdsr)
        ensures
            adsr@ == self@.envelope,
    {
        &self.adsr
    }

    /// The pitch shifter of the voice.
    pub fn shifter(&self) -> (shifter: &Shifter)
        ensures
            shifter@ == self@.shifter,
    {
        &self.pitch_shifter
    }

    /// The note that sounds, as its distance from the base note.
    pub fn midi_note(&self) -> (note: Option<i32>)
        ensures
            note is Some == self@.midi_note is Some,
            note matches Some(n) ==> self@.midi_note == Some(n as int),
    {
        self.midi_note
    }

    /// The position in the sample that was last published, in frames.
    pub fn get_shared_position(&self) -> (position: u64)
        ensures
            position == self@.playback_position,
    {
        self.playback_position
    }
    /// What the detection of the pitch is to work on, while the shifter of
    /// the voice waits for the pitch of its sample.
    pub fn pitch_request(&self) -> (request: Option<PitchRequest>)
        ensures
            shifter_asks_for_pitch(request, self@.shifter),
    {
        self.pitch_shifter.pitch_request()
    }

    /// Hands the outcome of the detection of the pitch to the shifter of
    /// the voice; where that makes the sample usable while a note sounds,
    /// the shifter is triggered for the note.
    pub fn pitch_detected(&mut self, params: &HardKickSamplerParams, frequency: Option<u64>)
        requires
            old(self)@.index < params.samples@.len(),
        ensures
            final(self)@ == after_pitch(
                old(self)@,
                params.samples@[old(self)@.index as int],
                frequency,
            ),
    {
        let awaited: bool = self.pitch_shifter.awaits_pitch();
        self.pitch_shifter.pitch_detected(frequency);
        if awaited && self.midi_note.is_some() {
            let playback_rate: u64 = self.get_playback_rate(params);
            let sr_correction: u64 = self.get_sr_correction();
            self.pitch_shifter.trigger(sr_correction, playback_rate);
        }
    }

    /// What the synthesis of the stream of the note is to work with, while
    /// the shifter of the voice waits for that stream.
    pub fn synthesis_request(&self) -> (request: Option<SynthesisRequest>)
        ensures
            request == shifter_synthesis_request(self@.shifter),
    {
        self.pitch_shifter.synthesis_request()
    }

    /// Hands the synthesised stream of each channel to the shifter of the
    /// voice.
    pub fn synthesis_done(&mut self, streams: Vec<Vec<i64>>)
        ensures
            final(self)@ == (VoiceState {
                shifter: shifter_synthesis_done(old(self)@.shifter, stream_views(streams@)),
                ..old(self)@
            }),
    {
        self.pitch_shifter.synthesis_done(streams);
    }

    /// Brings the shifter in line with the strategy that the slot asks for:
    /// where the strategy differs or the shifter is not ready, a shifter of
    /// the strategy asked for is made, loaded with the sample of the voice
    /// and, while a note sounds, triggered for it.
    pub fn prepare_shifter(&mut self, params: &HardKickSamplerParams)
        requires
            old(self)@.index < params.samples@.len(),
        ensures
            final(self)@ == prepared(old(self)@, params.samples@[old(self)@.index as int]),
    {
        let desired_kind: PitchShiftKind = self.get_params(params).pitch_shift_kind;
        let current_kind: PitchShiftKind = self.pitch_shifter.kind();
        if current_kind != desired_kind || !self.pitch_shifter.ready() {
            let playback_rate: u64 = self.get_playback_rate(params);
            let sr_correction: u64 = self.get_sr_correction();
            match &self.buffer {
                Some(buffer) => {
                    let mut shifter: Shifter = Shifter::new(desired_kind);
                    shifter.load_sample(buffer, self.sample_channels, self.sample_rate);
                    if self.midi_note.is_some() {
                        shifter.trigger(sr_correction, playback_rate);
                    }
                    self.pitch_shifter = shifter;
                },
                None => {},
            }
        }
    }

    /// The time on the timeline of the note at which a block begins, in
    /// microseconds.
    fn block_start(&self, process_count: u64) -> (time: i64)
        ensures
            time == block_time(process_count as nat, self@.host_sample_rate),
    {
        if self.host_sample_rate == 0 {
            i64::MAX
        } else {
            let exact: u128 = (process_count as u128) * 1_000_000u128 / (
            self.host_sample_rate as u128);
            if exact > 0x7fff_ffff_ffff_ffffu128 {
                i64::MAX
            } else {
                exact as i64
            }
        }
    }

    /// Renders one block of the voice into `buffer`, on top of what is
    /// there. `buffer` holds the frames of the host, interleaved;
    /// `process_count` is the number of frames since the note began.
    ///
    /// A silent voice renders nothing. Otherwise the shifter is brought in
    /// line with the slot, and each frame of the block takes the frame of
    /// the shifter, scaled by the master gain, the envelope, the blend gain
    /// and the gain of the voice. Where the shifter has no frame, the voice
    /// is reset at once and the rest of the block stays as it is.
    pub fn process(
        &mut self,
        params: &HardKickSamplerParams,
        buffer: &mut Vec<i64>,
        process_count: u64,
    )
        requires
            old(self)@.index < params.samples@.len(),
        ensures
            voice_silent(old(self)@, params.samples@[old(self)@.index as int]) ==> final(self)@
                == old(self)@ && final(buffer)@ == old(buffer)@,
            !voice_silent(old(self)@, params.samples@[old(self)@.index as int]) ==> ({
                let ready = prepared(old(self)@, params.samples@[old(self)@.index as int]);
                &&& final(buffer)@ == block_rendered(ready, *params, old(buffer)@, process_count).output
                &&& final(self)@ == after_block(ready, *params, old(buffer)@, process_count)
            }),
    {
        if self.is_silent(params) {
            return ;
        }
        self.prepare_shifter(params);
        self.process_buffer(params, buffer, process_count)
    }

    /// Renders one block with the shifter as it is.
    fn process_buffer(
        &mut self,
        params: &HardKickSamplerParams,
        buffer: &mut Vec<i64>,
        process_count: u64,
    )
        requires
            old(self)@.index < params.samples@.len(),
        ensures
            final(buffer)@ == block_rendered(
                old(self)@,
                *params,
                old(buffer)@,
                process_count,
            ).output,
            final(self)@ == after_block(old(self)@, *params, old(buffer)@, process_count),
    {
        let slot: &SampleWrapperParams = self.get_params(params);
        let attack: i32 = slot.attack;
        let decay: i32 = slot.decay;
        let sustain: i64 = slot.sustain;
        let release: i32 = slot.release;
        let gain: i64 = slot.gain;
        let top_gain: i64 = params.gain;
        let current_time: i64 = self.block_start(process_count);
        let blend: i64 = get_blend_value(
            slot.blend_group,
            current_time,
            params.blend_time,
            params.blend_transition,
        );
        let host_channels: usize = self.host_channels;
        let frames: usize = if host_channels == 0 {
            0
        } else {
            buffer.len() / host_channels
        };
        let total: usize = buffer.len();
        let ghost start = self@;
        let ghost given = buffer@;
        let ghost settings = block_settings(start, *params, process_count);
        let ghost shifter = start.shifter;
        let ghost whole = rendered(
            shifter,
            Rendering { envelope: start.envelope, output: given, stopped: false },
            settings,
            0,
            frames as int,
        );
        let mut frame: usize = 0;
        while frame < frames
            invariant
                frame <= frames,
                host_channels == start.host_channels,
                frames == frames_in(given.len(), start.host_channels),
                buffer@.len() == given.len(),
                total == given.len(),
                self@ == (VoiceState { envelope: self@.envelope, ..start }),
                settings == (BlockSettings {
                    attack: attack as int,
                    decay: decay as int,
                    sustain: sustain as int,
                    release: release as int,
                    gain: gain as int,
                    top_gain: top_gain as int,
                    blend_gain: blend as int,
                    host_channels: host_channels as nat,
                    process_count: process_count as nat,
                }),
                shifter == start.shifter,
                start == old(self)@,
                given == old(buffer)@,
                whole == block_rendered(start, *params, given, process_count),
                whole == rendered(
                    shifter,
                    Rendering { envelope: self@.envelope, output: buffer@, stopped: false },
                    settings,
                    frame as int,
                    frames as int,
                ),
            decreases frames - frame,
        {
            let ghost before = Rendering {
                envelope: self@.envelope,
                output: buffer@,
                stopped: false,
            };
            let position: u64 = frame_place(process_count, frame);
            match self.pitch_shifter.get_frame(position) {
                None => {
                    self.reset();
                    proof {
                        assert(whole == rendered(
                            shifter,
                            rendered_frame(shifter, before, settings, frame as int),
                            settings,
                            frame + 1,
                            frames as int,
                        ));
                        lemma_stopped_rendering_stays(
                            shifter,
                            rendered_frame(shifter, before, settings, frame as int),
                            settings,
                            frame + 1,
                            frames as int,
                        );
                    }
                    return ;
                },
                Some(data) => {
                    let envelope: i64 = self.adsr.next_value(attack, decay, sustain, release, true);
                    let width: usize = data.width();
                    let count: usize = if host_channels < width {
                        host_channels
                    } else {
                        width
                    };
                    proof {
                        lemma_frame_fits(given.len(), host_channels as nat, frame as nat);
                    }
                    assert(frame * host_channels + host_channels <= total);
                    let base: usize = frame * host_channels;
                    let ghost unmixed = buffer@;
                    let mut channel: usize = 0;
                    while channel < count
                        invariant
                            channel <= count <= host_channels,
                            count <= data.channels().len(),
                            base + host_channels <= total,
                            total == buffer@.len(),
                            buffer@.len() == unmixed.len(),
                            buffer@ == mixed(
                                unmixed,
                                base as int,
                                channel as int,
                                data.channels(),
                                settings,
                                envelope as int,
                            ),
                            settings.gain == gain,
                            settings.top_gain == top_gain,
                            settings.blend_gain == blend,
                        decreases count - channel,
                    {
                        let value: i64 = match data.channel(channel) {
                            Some(value) => value,
                            None => 0,
                        };
                        let scaled: i64 = level_mul(
                            level_mul(level_mul(level_mul(value, top_gain), envelope), blend),
                            gain,
                        );
                        let sum: i64 = level_add(buffer[base + channel], scaled);
                        buffer.set(base + channel, sum);
                        channel = channel + 1;
                        assert(buffer@ =~= mixed(
                            unmixed,
                            base as int,
                            channel as int,
                            data.channels(),
                            settings,
                            envelope as int,
                        ));
                    }
                    assert(rendered_frame(shifter, before, settings, frame as int) == (Rendering {
                        envelope: self@.envelope,
                        output: buffer@,
                        stopped: false,
                    }));
                },
            }
            frame = frame + 1;
        }
    }

    /// Publishes the position that the voice has reached in its sample
    /// after `process_count` host frames: 0 for a silent voice, else the
    /// whole frames of the position that the shifter reports.
    pub fn update_shared_position(&mut self, params: &HardKickSamplerParams, process_count: u64)
        requires
            old(self)@.index < params.samples@.len(),
        ensures
            final(self)@ == (VoiceState {
                playback_position: published_position(
                    old(self)@,
                    params.samples@[old(self)@.index as int],
                    process_count,
                ),
                ..old(self)@
            }),
    {
        if self.is_silent(params) {
            self.playback_position = 0;
            return ;
        }
        let position: u64 = self.pitch_shifter.get_position(frame_place(process_count, 0));
        self.playback_position = position / 0x1_0000_0000u64;
    }
}

/// The state after the detection of the pitch of the sample of a voice:
/// the shifter takes the outcome where it waits for it, and is triggered
/// where a note sounds.
pub open spec fn after_pitch(
    v: VoiceState,
    p: SampleWrapperParams,
    frequency: Option<u64>,
) -> VoiceState {
    let detected = VoiceState { shifter: shifter_pitch_detected(v.shifter, frequency), ..v };
    if shifter_awaits_pitch(v.shifter) && v.midi_note is Some {
        VoiceState { shifter: retriggered(detected, p), ..detected }
    } else {
        detected
    }
}

/// The state of a voice whose shifter was brought in line with the strategy
/// that the slot asks for.
pub open spec fn prepared(v: VoiceState, p: SampleWrapperParams) -> VoiceState {
    if (shifter_kind(v.shifter) != p.pitch_shift_kind || !shifter_ready(v.shifter))
        && v.buffer is Some {
        let loaded = shifter_loaded(
            fresh_shifter(p.pitch_shift_kind),
            v.buffer.unwrap(),
            v.sample_channels,
            v.sample_rate,
        );
        if v.midi_note is Some {
            VoiceState {
                shifter: shifter_triggered(
                    loaded,
                    sr_correction_of(v.sample_rate, v.host_sample_rate) as nat,
                    playback_rate_of(semitone_shift(v.midi_note, p)) as nat,
                ),
                ..v
            }
        } else {
            VoiceState { shifter: loaded, ..v }
        }
    } else {
        v
    }
}

/// The time on the timeline of a note at which the block begins that
/// starts `process_count` frames into the note, in microseconds, rounded
/// down and saturated; a host rate of zero gives the latest time there is.
pub open spec fn block_time(process_count: nat, host_sample_rate: nat) -> int {
    if host_sample_rate == 0 {
        i64::MAX as int
    } else {
        let exact = (process_count * MICROS_PER_SECOND) / (host_sample_rate as int);
        if exact > i64::MAX {
            i64::MAX as int
        } else {
            exact
        }
    }
}

/// The position of the frame that lies `frame` frames into the block that
/// starts `process_count` frames into the note, with 32 fractional bits,
/// saturated.
pub open spec fn frame_position(process_count: nat, frame: int) -> u64 {
    let exact = (process_count + frame) * ONE;
    if exact > u64::MAX {
        u64::MAX
    } else {
        exact as u64
    }
}

/// The position of a frame of a block.
fn frame_place(process_count: u64, frame: usize) -> (position: u64)
    ensures
        position == frame_position(process_count as nat, frame as int),
{
    let exact: u128 = (process_count as u128 + frame as u128) * 0x1_0000_0000u128;
    if exact > 0xffff_ffff_ffff_ffffu128 {
        u64::MAX
    } else {
        exact as u64
    }
}

/// The number of whole frames in an interleaved buffer of `len` samples.
pub open spec fn frames_in(len: nat, host_channels: nat) -> nat {
    if host_channels == 0 {
        0
    } else {
        len / host_channels
    }
}

/// What holds for all frames of one block: the times and the sustain level
/// of the envelope, the gains, and the layout of the block.
pub struct BlockSettings {
    pub attack: int,
    pub decay: int,
    pub sustain: int,
    pub release: int,
    /// The gain of the voice.
    pub gain: int,
    /// The master gain.
    pub top_gain: int,
    /// The gain of the blend crossfade, taken at the start of the block.
    pub blend_gain: int,
    /// Channels of the host.
    pub host_channels: nat,
    /// Frames since the note began.
    pub process_count: nat,
}

/// The settings of the block that a voice renders `process_count` frames
/// into its note.
pub open spec fn block_settings(
    v: VoiceState,
    params: HardKickSamplerParams,
    process_count: u64,
) -> BlockSettings {
    let p = params.samples@[v.index as int];
    BlockSettings {
        attack: p.attack as int,
        decay: p.decay as int,
        sustain: p.sustain as int,
        release: p.release as int,
        gain: p.gain as int,
        top_gain: params.gain as int,
        blend_gain: blend_gain(
            p.blend_group,
            block_time(process_count as nat, v.host_sample_rate),
            params.blend_time as int,
            params.blend_transition as int,
        ),
        host_channels: v.host_channels,
        process_count: process_count as nat,
    }
}

/// A sample value after all gains: the master gain, the envelope, the blend
/// gain and the gain of the voice, in this order.
pub open spec fn gained(value: int, s: BlockSettings, envelope: int) -> int {
    level_product(
        level_product(level_product(level_product(value, s.top_gain), envelope), s.blend_gain),
        s.gain,
    )
}

/// The output after the first `count` values of a frame were added, with
/// all gains, to the samples from `base` on; every other sample stays.
pub open spec fn mixed(
    output: Seq<i64>,
    base: int,
    count: int,
    data: Seq<i64>,
    s: BlockSettings,
    envelope: int,
) -> Seq<i64> {
    Seq::new(
        output.len(),
        |k: int|
            if base <= k < base + count {
                level_sum(output[k] as int, gained(data[k - base] as int, s, envelope)) as i64
            } else {
                output[k]
            },
    )
}

/// The number of channels of a host frame that a frame of the shifter
/// reaches: the channels that both have.
pub open spec fn shared_channels(host_channels: nat, data: FrameOutput) -> int {
    if host_channels < data.channels().len() {
        host_channels as int
    } else {
        data.channels().len() as int
    }
}

/// How far the rendering of a block has come: the envelope, the output,
/// and whether the voice was stopped because its shifter ran out of frames.
pub struct Rendering {
    pub envelope: EnvelopeState,
    pub output: Seq<i64>,
    pub stopped: bool,
}

/// The rendering after frame `frame` of the block.
///
/// A stopped voice renders nothing more. Where the shifter has no frame,
/// the voice is stopped and its envelope brought to rest. Otherwise the
/// envelope advances by one sample, and the frame of the shifter is added
/// to the frame of the host with all gains.
pub open spec fn rendered_frame(
    shifter: ShifterState,
    r: Rendering,
    s: BlockSettings,
    frame: int,
) -> Rendering {
    if r.stopped {
        r
    } else {
        match shifter_frame(shifter, frame_position(s.process_count, frame)) {
            None => Rendering { envelope: after_reset(r.envelope), stopped: true, ..r },
            Some(data) => {
                let envelope = advanced(r.envelope, s.attack, s.decay, s.sustain, s.release);
                Rendering {
                    envelope,
                    output: mixed(
                        r.output,
                        frame * s.host_channels,
                        shared_channels(s.host_channels, data),
                        data.channels(),
                        s,
                        envelope.current_value,
                    ),
                    stopped: false,
                }
            },
        }
    }
}

/// The rendering after the frames from `from` up to `frames` of the block.
pub open spec fn rendered(
    shifter: ShifterState,
    r: Rendering,
    s: BlockSettings,
    from: int,
    frames: int,
) -> Rendering
    decreases frames - from,
{
    if from >= frames {
        r
    } else {
        rendered(shifter, rendered_frame(shifter, r, s, from), s, from + 1, frames)
    }
}

/// The rendering of the whole block that a voice in state `v` renders on
/// top of `output`.
pub open spec fn block_rendered(
    v: VoiceState,
    params: HardKickSamplerParams,
    output: Seq<i64>,
    process_count: u64,
) -> Rendering {
    rendered(
        v.shifter,
        Rendering { envelope: v.envelope, output, stopped: false },
        block_settings(v, params, process_count),
        0,
        frames_in(output.len(), v.host_channels) as int,
    )
}

/// The state of a voice after it rendered a block: the envelope is where
/// the rendering left it, and a voice that was stopped has lost its note.
pub open spec fn after_block(
    v: VoiceState,
    params: HardKickSamplerParams,
    output: Seq<i64>,
    process_count: u64,
) -> VoiceState {
    let r = block_rendered(v, params, output, process_count);
    VoiceState {
        envelope: r.envelope,
        midi_note: if r.stopped {
            None
        } else {
            v.midi_note
        },
        ..v
    }
}

/// The position that a voice publishes `process_count` frames into its
/// note.
pub open spec fn published_position(
    v: VoiceState,
    p: SampleWrapperParams,
    process_count: u64,
) -> nat {
    if voice_silent(v, p) {
        0
    } else {
        (shifter_position(v.shifter, frame_position(process_count as nat, 0)) / (
        ONE as int)) as nat
    }
}

/// Once a voice is stopped, the rest of the block changes nothing.
pub proof fn lemma_stopped_rendering_stays(
    shifter: ShifterState,
    r: Rendering,
    s: BlockSettings,
    from: int,
    frames: int,
)
    requires
        r.stopped,
    ensures
        rendered(shifter, r, s, from, frames) == r,
    decreases frames - from,
{
    if from < frames {
        lemma_stopped_rendering_stays(shifter, r, s, from + 1, frames);
    }
}

/// Rendering changes the values of the output, never its length.
pub proof fn lemma_rendered_keeps_length(
    shifter: ShifterState,
    r: Rendering,
    s: BlockSettings,
    from: int,
    frames: int,
)
    ensures
        rendered(shifter, r, s, from, frames).output.len() == r.output.len(),
    decreases frames - from,
{
    if from < frames {
        lemma_rendered_keeps_length(
            shifter,
            rendered_frame(shifter, r, s, from),
            s,
            from + 1,
            frames,
        );
    }
}

/// Every whole frame of a buffer lies inside the buffer.
proof fn lemma_frame_fits(len: nat, host_channels: nat, frame: nat)
    requires
        host_channels > 0,
        frame < len / host_channels,
    ensures
        frame * host_channels + host_channels <= len,
{
    let frames = len / host_channels;
    vstd::arithmetic::div_mod::lemma_fundamental_div_mod(len as int, host_channels as int);
    vstd::arithmetic::div_mod::lemma_mod_bound(len as int, host_channels as int);
    assert((frame + 1) * host_channels <= frames * host_channels) by (nonlinear_arith)
        requires
            frame + 1 <= frames,
            host_channels > 0,
    ;
    assert((frame + 1) * host_channels == frame * host_channels + host_channels)
        by (nonlinear_arith);
    assert(host_channels * frames == frames * host_channels) by (nonlinear_arith);
}

} // verus!
