//! Direct resampling: the sample is read at a fractional position, with
//! linear interpolation between neighbouring frames.

use vstd::prelude::*;
use crate::fixed::ONE;
use crate::pitch_shift::{frame_of, FrameOutput, PitchShiftKind, PitchShifter};
use crate::utils::{
    get_stretch_playback_position, interleaved_index, interpolate, interpolated, pitched_position,
    scale,
};

verus! {

/// The direct resampler.
pub struct ClassicShifter {
    sample_buffer: Option<Vec<i64>>,
    channel_number: usize,
    sample_rate: u32,
    playback_rate: u64,
    sr_correction: u64,
    is_loaded: bool,
    is_triggered: bool,
}

/// The mathematical state of a direct resampler.
pub struct ClassicState {
    /// The interleaved samples, if a sample is loaded.
    pub buffer: Option<Seq<i64>>,
    /// Channels of the sample.
    pub channels: nat,
    /// Frames per second of the sample.
    pub sample_rate: nat,
    /// The playback rate of the current note.
    pub playback_rate: nat,
    /// The sample-rate correction of the current note.
    pub sr_correction: nat,
    /// Whether a sample is loaded.
    pub loaded: bool,
    /// Whether a note was triggered since the sample was loaded.
    pub triggered: bool,
}

/// The state of a resampler without a sample.
pub open spec fn empty_classic() -> ClassicState {
    ClassicState {
        buffer: None,
        channels: 0,
        sample_rate: 0,
        playback_rate: ONE as nat,
        sr_correction: ONE as nat,
        loaded: false,
        triggered: false,
    }
}

/// The state after loading a sample: the sample stands in place of any
/// earlier one, and waits for a trigger; the rates stay as they are.
pub open spec fn classic_loaded(
    s: ClassicState,
    buffer: Seq<i64>,
    channels: nat,
    sample_rate: nat,
) -> ClassicState {
    ClassicState {
        buffer: Some(buffer),
        channels,
        sample_rate,
        loaded: true,
        triggered: false,
        ..s
    }
}

/// The state after a trigger: with a sample, the rates of the note are
/// taken and the resampler is ready; without one, nothing changes.
pub open spec fn classic_triggered(
    s: ClassicState,
    sr_correction: nat,
    playback_rate: nat,
) -> ClassicState {
    if s.loaded && s.buffer is Some {
        ClassicState { sr_correction, playback_rate, triggered: true, ..s }
    } else {
        s
    }
}

/// Whether a resampler in state `s` hands out frames.
pub open spec fn classic_ready(s: ClassicState) -> bool {
    s.loaded && s.triggered && s.buffer is Some
}

/// The value of channel `channel` at the position `pitched` of an
/// interleaved buffer: the sample at the frame of that position, moved
/// towards the sample of the next frame by the fractional part of the
/// position. Where the buffer ends with the frame, the sample stands as it
/// is; where it ends before, there is no value.
pub open spec fn channel_value(
    buffer: Seq<i64>,
    channels: nat,
    pitched: int,
    channel: int,
) -> Option<i64> {
    let index = interleaved_index(pitched / (ONE as int), channels as int, channel);
    if index >= buffer.len() {
        None
    } else if index + channels >= buffer.len() {
        Some(buffer[index])
    } else {
        Some(
            interpolated(
                buffer[index] as int,
                buffer[index + channels] as int,
                pitched % (ONE as int),
            ) as i64,
        )
    }
}

/// The values of all channels at the position `pitched`, if every channel
/// has one.
pub open spec fn frame_values(buffer: Seq<i64>, channels: nat, pitched: int) -> Option<Seq<i64>> {
    if forall|channel: int|
        0 <= channel < channels ==> (#[trigger] channel_value(buffer, channels, pitched, channel))
            is Some {
        Some(
            Seq::new(
                channels,
                |channel: int| channel_value(buffer, channels, pitched, channel).unwrap(),
            ),
        )
    } else {
        None
    }
}

/// The frame that a resampler in state `s` has at `position`.
pub open spec fn classic_frame(s: ClassicState, position: u64) -> Option<FrameOutput> {
    if s.loaded && s.triggered && s.buffer is Some {
        match frame_values(
            s.buffer.unwrap(),
            s.channels,
            pitched_position(position as int, s.sr_correction as int, s.playback_rate as int),
        ) {
            Some(values) => Some(frame_of(values)),
            None => None,
        }
    } else {
        None
    }
}

/// At unity rates the resampler returns the samples themselves: at a whole
/// number of frames, the value of every channel is exactly the sample of
/// that channel in that frame, with no trace of its neighbours.
pub proof fn lemma_unity_rates_return_samples(buffer: Seq<i64>, channels: nat, frame: nat)
    requires
        buffer.len() <= u64::MAX,
        frame <= 0xffff_ffff,
        (frame + 1) * channels <= buffer.len(),
    ensures
        frame_values(buffer, channels, pitched_position(frame * ONE, ONE as int, ONE as int))
            == Some(buffer.subrange((frame * channels) as int, ((frame + 1) * channels) as int)),
        forall|channel: int|
            0 <= channel < channels ==> #[trigger] channel_value(
                buffer,
                channels,
                pitched_position(frame * ONE, ONE as int, ONE as int),
                channel,
            ) == Some(buffer[frame * channels + channel]),
{
    let pitched = pitched_position(frame * ONE, ONE as int, ONE as int);
    crate::utils::lemma_unity_rates_land_on_frames(frame as int);
    assert((frame + 1) * channels == frame * channels + channels) by (nonlinear_arith);
    assert(frame * channels >= 0) by (nonlinear_arith);
    assert forall|channel: int| 0 <= channel < channels implies #[trigger] channel_value(
        buffer,
        channels,
        pitched,
        channel,
    ) == Some(buffer[frame * channels + channel]) by {
        let index = frame * channels + channel;
        assert(interleaved_index(pitched / (ONE as int), channels as int, channel) == index);
        if index + channels < buffer.len() {
            crate::fixed::lemma_share_bounds(
                buffer[index + channels] - buffer[index],
                0,
                ONE as int,
            );
        }
    }
    let values = frame_values(buffer, channels, pitched);
    assert(values is Some);
    assert(values.unwrap() =~= buffer.subrange((frame * channels) as int, ((frame + 1) * channels) as int));
}

impl View for ClassicShifter {
    type V = ClassicState;

    closed spec fn view(&self) -> ClassicState {
        ClassicState {
            buffer: match self.sample_buffer {
                Some(buffer) => Some(buffer@),
                None => None,
            },
            channels: self.channel_number as nat,
            sample_rate: self.sample_rate as nat,
            playback_rate: self.playback_rate as nat,
            sr_correction: self.sr_correction as nat,
            loaded: self.is_loaded,
            triggered: self.is_triggered,
        }
    }
}

impl ClassicShifter {
    /// A resampler without a sample.
    pub fn new() -> (shifter: Self)
        ensures
            shifter@ == empty_classic(),
    {
        Self {
            sample_buffer: None,
            channel_number: 0,
            sample_rate: 0,
            playback_rate: ONE as u64,
            sr_correction: ONE as u64,
            is_loaded: false,
            is_triggered: false,
        }
    }

    /// Where in the buffer the sample of channel `channel_index` lies after
    /// `process_count` host frames, and the fractional part of the position.
    fn get_playback_position(&self, process_count: u64, channel_index: usize) -> (place: (
        u64,
        u32,
    ))
        ensures
            place.0 == interleaved_index(
                pitched_position(
                    process_count as int,
                    self@.sr_correction as int,
                    self@.playback_rate as int,
                ) / (ONE as int),
                self@.channels as int,
                channel_index as int,
            ),
            place.1 == pitched_position(
                process_count as int,
                self@.sr_correction as int,
                self@.playback_rate as int,
            ) % (ONE as int),
    {
        get_stretch_playback_position(
            process_count,
            self.sr_correction,
            self.playback_rate,
            self.channel_number,
            channel_index,
        )
    }
}

impl PitchShifter for ClassicShifter {
    open spec fn has_sample(&self) -> bool {
        self@.loaded && self@.buffer is Some
    }

    open spec fn is_ready(&self) -> bool {
        classic_ready(self@)
    }

    open spec fn frame_at(&self, position: u64) -> Option<FrameOutput> {
        classic_frame(self@, position)
    }

    fn clear_sample(&mut self)
        ensures
            final(self)@ == empty_classic(),
    {
        self.sample_buffer = None;
        self.channel_number = 0;
        self.sample_rate = 0;
        self.playback_rate = ONE as u64;
        self.sr_correction = ONE as u64;
        self.is_loaded = false;
        self.is_triggered = false;
    }

    fn load_sample(&mut self, sample_buffer: &Vec<i64>, channel_number: usize, sample_rate: u32)
        ensures
            final(self)@ == classic_loaded(
                old(self)@,
                sample_buffer@,
                channel_number as nat,
                sample_rate as nat,
            ),
    {
        self.sample_buffer = Some(sample_buffer.clone());
        self.channel_number = channel_number;
        self.sample_rate = sample_rate;
        self.is_loaded = true;
        self.is_triggered = false;
    }

    fn trigger(&mut self, sr_correction: u64, playback_rate: u64)
        ensures
            final(self)@ == classic_triggered(
                old(self)@,
                sr_correction as nat,
                playback_rate as nat,
            ),
    {
        if self.is_loaded && self.sample_buffer.is_some() {
            self.sr_correction = sr_correction;
            self.playback_rate = playback_rate;
            self.is_triggered = true;
        }
    }

    fn ready(&self) -> (ready: bool) {
        self.is_loaded && self.is_triggered && self.sample_buffer.is_some()
    }

    fn get_frame(&mut self, position: u64) -> (frame: Option<FrameOutput>) {
        if !(self.is_loaded && self.is_triggered) {
            return None;
        }
        let buffer: &Vec<i64> = match &self.sample_buffer {
            Some(buffer) => buffer,
            None => {
                return None;
            },
        };
        let ghost pitched = pitched_position(
            position as int,
            self@.sr_correction as int,
            self@.playback_rate as int,
        );
        let mut frame: Vec<i64> = Vec::new();
        let mut channel_index: usize = 0;
        while channel_index < self.channel_number
            invariant
                channel_index <= self.channel_number,
                self.sample_buffer == Some(*buffer),
                pitched == pitched_position(
                    position as int,
                    self@.sr_correction as int,
                    self@.playback_rate as int,
                ),
                frame@.len() == channel_index,
                forall|channel: int|
                    0 <= channel < channel_index ==> (#[trigger] channel_value(
                        buffer@,
                        self@.channels,
                        pitched,
                        channel,
                    )) == Some(frame@[channel]),
            decreases self.channel_number - channel_index,
        {
            let (sample_index, fraction) = self.get_playback_position(position, channel_index);
            if sample_index >= buffer.len() as u64 {
                assert(channel_value(buffer@, self@.channels, pitched, channel_index as int)
                    is None);
                return None;
            }
            let current: i64 = buffer[sample_index as usize];
            let next_index: u128 = sample_index as u128 + self.channel_number as u128;
            let sample_value: i64 = if next_index < buffer.len() as u128 {
                interpolate(current, buffer[next_index as usize], fraction)
            } else {
                current
            };
            frame.push(sample_value);
            channel_index = channel_index + 1;
        }
        proof {
            let values = frame_values(buffer@, self@.channels, pitched);
            assert(values is Some);
            assert(values.unwrap() =~= frame@);
        }
        Some(FrameOutput::from(frame))
    }

    fn kind(&self) -> (kind: PitchShiftKind)
        ensures
            kind == PitchShiftKind::Classic,
    {
        PitchShiftKind::Classic
    }

    fn get_position(&self, position: u64) -> (place: u64)
        ensures
            place == pitched_position(
                position as int,
                self@.sr_correction as int,
                self@.playback_rate as int,
            ),
    {
        scale(scale(position, self.sr_correction), self.playback_rate)
    }
}

} // verus!
