//! The sampler as a whole: one player for each slot, and the count of the
//! frames since the last note began.

use vstd::prelude::*;
use crate::fixed::{level_mul, level_product};
use crate::params::HardKickSamplerParams;
use crate::sample_wrapper::{
    after_block, after_pitch, block_rendered, prepared, published_position, started, voice_silent, with_buffers,
    SamplePlayer, VoiceState,
};
use crate::adsr::{after_note_off, after_reset, EnvelopeState};
use crate::pitch_shift::shifter_synthesis_done;
use crate::pitch_shift::psola::stream_views;
use crate::tasks::TaskResults;

verus! {

/// The tempo that is assumed while the host gives none, in beats per
/// minute.
pub const DEFAULT_BPM: u32 = 150;

/// The sampler: its players, and the number of frames since the last note
/// began.
pub struct HardKickSampler {
    sample_players: Vec<SamplePlayer>,
    process_count: u64,
}

/// The mathematical state of the sampler.
pub struct SamplerState {
    /// The state of each player.
    pub players: Seq<VoiceState>,
    /// Frames since the last note began.
    pub process_count: nat,
}

impl View for HardKickSampler {
    type V = SamplerState;

    closed spec fn view(&self) -> SamplerState {
        SamplerState {
            players: Seq::new(self.sample_players@.len(), |i: int| self.sample_players@[i]@),
            process_count: self.process_count as nat,
        }
    }
}

/// Whether each player of a sampler stands for the slot of its own number,
/// and each slot has its parameters.
pub open spec fn slots_match(s: SamplerState, params: HardKickSamplerParams) -> bool {
    &&& s.players.len() <= params.samples@.len()
    &&& forall|i: int| 0 <= i < s.players.len() ==> (#[trigger] s.players[i]).index == i
}

/// The state of a voice after the host was set up anew: sample and note
/// are dropped, and the rate and the channels of the host are taken.
pub open spec fn initialized(v: VoiceState, sample_rate: u32, channels: usize) -> VoiceState {
    VoiceState {
        midi_note: None,
        envelope: EnvelopeState {
            sample_rate: sample_rate as nat,
            ..after_reset(v.envelope)
        },
        host_sample_rate: sample_rate as nat,
        host_channels: channels as nat,
        ..with_buffers(v, None)
    }
}

/// The state of a voice after a finished task was applied to slot `slot`.
pub open spec fn task_applied(v: VoiceState, slot: int, task: TaskResults) -> VoiceState {
    match task {
        TaskResults::LoadedFile(index, path, data) => {
            if index == slot {
                VoiceState { sample_path: Some(path@), ..with_buffers(v, Some(data)) }
            } else {
                v
            }
        },
        TaskResults::ClearSample(index) => {
            if index == slot {
                VoiceState {
                    sample_rate: 0,
                    envelope: after_reset(v.envelope),
                    sample_path: None,
                    ..with_buffers(v, None)
                }
            } else {
                v
            }
        },
    }
}

/// The output of a block after the first `upto` players have rendered
/// into it, one after the other.
pub open spec fn voices_mixed(
    players: Seq<VoiceState>,
    params: HardKickSamplerParams,
    output: Seq<i64>,
    process_count: u64,
    upto: int,
) -> Seq<i64>
    decreases upto,
{
    if upto <= 0 {
        output
    } else {
        let below = voices_mixed(players, params, output, process_count, upto - 1);
        let v = players[upto - 1];
        if voice_silent(v, params.samples@[v.index as int]) {
            below
        } else {
            block_rendered(
                prepared(v, params.samples@[v.index as int]),
                params,
                below,
                process_count,
            ).output
        }
    }
}

/// The state of player `i` after it rendered its part of a block on top of
/// the players before it.
pub open spec fn voice_after_block(
    players: Seq<VoiceState>,
    params: HardKickSamplerParams,
    output: Seq<i64>,
    process_count: u64,
    i: int,
) -> VoiceState {
    let v = players[i];
    if voice_silent(v, params.samples@[v.index as int]) {
        v
    } else {
        after_block(
            prepared(v, params.samples@[v.index as int]),
            params,
            voices_mixed(players, params, output, process_count, i),
            process_count,
        )
    }
}

/// Whether every player of a sampler is silent.
pub open spec fn all_silent(players: Seq<VoiceState>, params: HardKickSamplerParams) -> bool {
    forall|i: int|
        0 <= i < players.len() ==> voice_silent(
            #[trigger] players[i],
            params.samples@[players[i].index as int],
        )
}

/// A block of silence of the given length.
pub open spec fn cleared(len: nat) -> Seq<i64> {
    Seq::new(len, |k: int| 0i64)
}

/// A block after the master gain was applied to each of its samples.
pub open spec fn with_master_gain(output: Seq<i64>, gain: int) -> Seq<i64> {
    Seq::new(output.len(), |k: int| level_product(output[k] as int, gain) as i64)
}

/// The frame count after a block of `len` samples for a host of
/// `channels` channels, saturated.
pub open spec fn count_after(process_count: nat, len: nat, channels: nat) -> nat {
    let frames = if channels == 0 {
        0
    } else {
        len / channels
    };
    if process_count + frames > u64::MAX {
        u64::MAX as nat
    } else {
        process_count + frames
    }
}

impl HardKickSampler {
    /// A sampler with one idle player for each slot of `params`.
    pub fn new(params: &HardKickSamplerParams) -> (sampler: Self)
        ensures
            sampler@.process_count == 0,
            sampler@.players.len() == params.samples@.len(),
            forall|i: int|
                0 <= i < sampler@.players.len() ==> #[trigger] sampler@.players[i]
                    == crate::sample_wrapper::new_voice(i as nat),
            slots_match(sampler@, *params),
    {
        let mut sample_players: Vec<SamplePlayer> = Vec::new();
        let mut index: usize = 0;
        while index < params.samples.len()
            invariant
                index <= params.samples@.len(),
                sample_players@.len() == index,
                forall|i: int|
                    0 <= i < index ==> (#[trigger] sample_players@[i])@
                        == crate::sample_wrapper::new_voice(i as nat),
            decreases params.samples@.len() - index,
        {
            sample_players.push(SamplePlayer::new(params, index));
            index = index + 1;
        }
        HardKickSampler { sample_players, process_count: 0 }
    }

    /// The number of players.
    pub fn len(&self) -> (len: usize)
        ensures
            len == self@.players.len(),
    {
        self.sample_players.len()
    }

    /// The player of slot `index`.
    pub fn player(&self, index: usize) -> (player: &SamplePlayer)
        requires
            index < self@.players.len(),
        ensures
            player@ == self@.players[index as int],
    {
        &self.sample_players[index]
    }

    /// Brings the shifter of slot `index` in line with the strategy that
    /// the slot asks for.
    pub fn prepare_shifter(&mut self, params: &HardKickSamplerParams, index: usize)
        requires
            slots_match(old(self)@, *params),
            index < old(self)@.players.len(),
        ensures
            final(self)@ == (SamplerState {
                players: old(self)@.players.update(
                    index as int,
                    prepared(old(self)@.players[index as int], params.samples@[index as int]),
                ),
                ..old(self)@
            }),
    {
        assert(self@.players[index as int].index == index);
        self.sample_players[index].prepare_shifter(params);
        assert(self@.players =~= old(self)@.players.update(
            index as int,
            prepared(old(self)@.players[index as int], params.samples@[index as int]),
        ));
    }

    /// Hands the outcome of the detection of the pitch to slot `index`.
    pub fn pitch_detected(
        &mut self,
        params: &HardKickSamplerParams,
        index: usize,
        frequency: Option<u64>,
    )
        requires
            slots_match(old(self)@, *params),
            index < old(self)@.players.len(),
        ensures
            final(self)@ == (SamplerState {
                players: old(self)@.players.update(
                    index as int,
                    after_pitch(
                        old(self)@.players[index as int],
                        params.samples@[index as int],
                        frequency,
                    ),
                ),
                ..old(self)@
            }),
    {
        assert(self@.players[index as int].index == index);
        self.sample_players[index].pitch_detected(params, frequency);
        assert(self@.players =~= old(self)@.players.update(
            index as int,
            after_pitch(
                old(self)@.players[index as int],
                params.samples@[index as int],
                frequency,
            ),
        ));
    }

    /// Hands the synthesised stream of each channel to slot `index`.
    pub fn synthesis_done(&mut self, index: usize, streams: Vec<Vec<i64>>)
        requires
            index < old(self)@.players.len(),
        ensures
            final(self)@ == (SamplerState {
                players: old(self)@.players.update(
                    index as int,
                    VoiceState {
                        shifter: shifter_synthesis_done(
                            old(self)@.players[index as int].shifter,
                            stream_views(streams@),
                        ),
                        ..old(self)@.players[index as int]
                    },
                ),
                ..old(self)@
            }),
    {
        let ghost given = stream_views(streams@);
        self.sample_players[index].synthesis_done(streams);
        assert(self@.players =~= old(self)@.players.update(
            index as int,
            VoiceState {
                shifter: shifter_synthesis_done(old(self)@.players[index as int].shifter, given),
                ..old(self)@.players[index as int]
            },
        ));
    }

    /// Frames since the last note began.
    pub fn process_count(&self) -> (count: u64)
        ensures
            count == self@.process_count,
    {
        self.process_count
    }

    /// Starts the note `note` on every player, and counts the frames from
    /// zero again.
    pub fn start_sample(&mut self, params: &HardKickSamplerParams, note: u8, velocity: i64)
        requires
            slots_match(old(self)@, *params),
        ensures
            final(self)@.process_count == 0,
            final(self)@.players.len() == old(self)@.players.len(),
            forall|i: int|
                0 <= i < old(self)@.players.len() ==> #[trigger] final(self)@.players[i]
                    == started(old(self)@.players[i], params.samples@[i], note),
    {
        self.process_count = 0;
        let ghost before = self@.players;
        let count: usize = self.sample_players.len();
        let mut index: usize = 0;
        while index < count
            invariant
                index <= count,
                count == before.len(),
                self.sample_players@.len() == count,
                slots_match(SamplerState { players: before, process_count: 0 }, *params),
                self.process_count == 0,
                forall|i: int|
                    0 <= i < index ==> (#[trigger] self.sample_players@[i])@ == started(
                        before[i],
                        params.samples@[i],
                        note,
                    ),
                forall|i: int|
                    index <= i < count ==> (#[trigger] self.sample_players@[i])@ == before[i],
            decreases count - index,
        {
            assert(before[index as int].index == index);
            self.sample_players[index].start_playing(params, note, velocity);
            index = index + 1;
        }
    }

    /// Ends the note on every player.
    pub fn stop_sample(&mut self)
        ensures
            final(self)@.process_count == old(self)@.process_count,
            final(self)@.players.len() == old(self)@.players.len(),
            forall|i: int|
                0 <= i < old(self)@.players.len() ==> #[trigger] final(self)@.players[i]
                    == (VoiceState {
                    envelope: after_note_off(old(self)@.players[i].envelope),
                    ..old(self)@.players[i]
                }),
    {
        let ghost before = self@.players;
        let count: usize = self.sample_players.len();
        let mut index: usize = 0;
        while index < count
            invariant
                index <= count,
                count == before.len(),
                self.sample_players@.len() == count,
                self.process_count == old(self).process_count,
                forall|i: int|
                    0 <= i < index ==> (#[trigger] self.sample_players@[i])@ == (VoiceState {
                        envelope: after_note_off(before[i].envelope),
                        ..before[i]
                    }),
                forall|i: int|
                    index <= i < count ==> (#[trigger] self.sample_players@[i])@ == before[i],
            decreases count - index,
        {
            self.sample_players[index].stop_playing();
            index = index + 1;
        }
    }

    /// Ends the note on every player at once; the samples stay loaded.
    pub fn reset(&mut self)
        ensures
            final(self)@.process_count == old(self)@.process_count,
            final(self)@.players.len() == old(self)@.players.len(),
            forall|i: int|
                0 <= i < old(self)@.players.len() ==> #[trigger] final(self)@.players[i]
                    == (VoiceState {
                    midi_note: None,
                    envelope: after_reset(old(self)@.players[i].envelope),
                    ..old(self)@.players[i]
                }),
    {
        let ghost before = self@.players;
        let count: usize = self.sample_players.len();
        let mut index: usize = 0;
        while index < count
            invariant
                index <= count,
                count == before.len(),
                self.sample_players@.len() == count,
                self.process_count == old(self).process_count,
                forall|i: int|
                    0 <= i < index ==> (#[trigger] self.sample_players@[i])@ == (VoiceState {
                        midi_note: None,
                        envelope: after_reset(before[i].envelope),
                        ..before[i]
                    }),
                forall|i: int|
                    index <= i < count ==> (#[trigger] self.sample_players@[i])@ == before[i],
            decreases count - index,
        {
            self.sample_players[index].reset();
            index = index + 1;
        }
    }

    /// Sets every player up for a host of the given sample rate and number
    /// of channels: samples and notes are dropped.
    pub fn initialize(&mut self, sample_rate: u32, num_channel: usize)
        ensures
            final(self)@.process_count == old(self)@.process_count,
            final(self)@.players.len() == old(self)@.players.len(),
            forall|i: int|
                0 <= i < old(self)@.players.len() ==> #[trigger] final(self)@.players[i]
                    == initialized(old(self)@.players[i], sample_rate, num_channel),
    {
        let ghost before = self@.players;
        let count: usize = self.sample_players.len();
        let mut index: usize = 0;
        while index < count
            invariant
                index <= count,
                count == before.len(),
                self.sample_players@.len() == count,
                self.process_count == old(self).process_count,
                forall|i: int|
                    0 <= i < index ==> (#[trigger] self.sample_players@[i])@ == initialized(
                        before[i],
                        sample_rate,
                        num_channel,
                    ),
                forall|i: int|
                    index <= i < count ==> (#[trigger] self.sample_players@[i])@ == before[i],
            decreases count - index,
        {
            self.sample_players[index].cleanup_wrapper();
            self.sample_players[index].change_sample_rate_output(sample_rate);
            self.sample_players[index].change_channel_number(num_channel);
            index = index + 1;
        }
    }

    /// Applies a finished task to the slot that it names; a task for a slot
    /// that does not exist is dropped.
    pub fn handle_message(&mut self, task: TaskResults)
        ensures
            final(self)@.process_count == old(self)@.process_count,
            final(self)@.players.len() == old(self)@.players.len(),
            forall|i: int|
                0 <= i < old(self)@.players.len() ==> #[trigger] final(self)@.players[i]
                    == task_applied(old(self)@.players[i], i, task),
    {
        match task {
            TaskResults::LoadedFile(index, path, data) => {
                if index < self.sample_players.len() {
                    self.sample_players[index].load_and_set_audio_file(path.as_str(), data);
                }
            },
            TaskResults::ClearSample(index) => {
                if index < self.sample_players.len() {
                    self.sample_players[index].clear_sample();
                }
            },
        }
    }

    /// Renders one block: `buffer` holds the frames of the host,
    /// interleaved.
    ///
    /// The block is cleared first. While every player is silent, nothing
    /// else happens. Otherwise every player that is not silent renders into
    /// the block, one after the other; the frames of the block are counted;
    /// the master gain is applied to the mix; and every player publishes
    /// the position that it has reached.
    pub fn process(&mut self, params: &HardKickSamplerParams, buffer: &mut Vec<i64>, channels: usize)
        requires
            slots_match(old(self)@, *params),
        ensures
            final(self)@.players.len() == old(self)@.players.len(),
            all_silent(old(self)@.players, *params) ==> {
                &&& final(self)@ == old(self)@
                &&& final(buffer)@ == cleared(old(buffer)@.len())
            },
            !all_silent(old(self)@.players, *params) ==> {
                &&& final(buffer)@ == with_master_gain(
                    voices_mixed(
                        old(self)@.players,
                        *params,
                        cleared(old(buffer)@.len()),
                        old(self)@.process_count as u64,
                        old(self)@.players.len() as int,
                    ),
                    params.gain as int,
                )
                &&& final(self)@.process_count == count_after(
                    old(self)@.process_count,
                    old(buffer)@.len(),
                    channels as nat,
                )
                &&& forall|i: int|
                    0 <= i < old(self)@.players.len() ==> #[trigger] final(self)@.players[i] == ({
                        let rendered = voice_after_block(
                            old(self)@.players,
                            *params,
                            cleared(old(buffer)@.len()),
                            old(self)@.process_count as u64,
                            i,
                        );
                        VoiceState {
                            playback_position: published_position(
                                rendered,
                                params.samples@[i],
                                final(self)@.process_count as u64,
                            ),
                            ..rendered
                        }
                    })
            },
    {
        let ghost before = self@.players;
        let ghost given_len = buffer@.len();
        let len: usize = buffer.len();
        let count: usize = self.sample_players.len();
        let started_at: u64 = self.process_count;
        let mut k: usize = 0;
        while k < len
            invariant
                k <= len,
                len == given_len,
                buffer@.len() == len,
                forall|j: int| 0 <= j < k ==> buffer@[j] == 0,
            decreases len - k,
        {
            buffer.set(k, 0);
            k = k + 1;
        }
        assert(buffer@ =~= cleared(given_len));
        let mut any_active: bool = false;
        let mut index: usize = 0;
        while index < count
            invariant
                index <= count,
                count == before.len(),
                self.sample_players@.len() == count,
                self@.players == before,
                slots_match(SamplerState { players: before, process_count: 0 }, *params),
                any_active == !(forall|i: int|
                    0 <= i < index ==> voice_silent(
                        #[trigger] before[i],
                        params.samples@[before[i].index as int],
                    )),
            decreases count - index,
        {
            assert(before[index as int].index == index);
            assert(self.sample_players@[index as int]@ == before[index as int]);
            if !self.sample_players[index].is_silent(params) {
                any_active = true;
            }
            index = index + 1;
        }
        if !any_active {
            return ;
        }
        let ghost silence = buffer@;
        index = 0;
        while index < count
            invariant
                index <= count,
                count == before.len(),
                self.sample_players@.len() == count,
                self.process_count == started_at,
                silence == cleared(given_len),
                buffer@.len() == given_len,
                slots_match(SamplerState { players: before, process_count: 0 }, *params),
                buffer@ == voices_mixed(before, *params, silence, started_at, index as int),
                forall|i: int|
                    0 <= i < index ==> (#[trigger] self.sample_players@[i])@ == voice_after_block(
                        before,
                        *params,
                        silence,
                        started_at,
                        i,
                    ),
                forall|i: int|
                    index <= i < count ==> (#[trigger] self.sample_players@[i])@ == before[i],
            decreases count - index,
        {
            assert(before[index as int].index == index);
            if !self.sample_players[index].is_silent(params) {
                self.sample_players[index].process(params, buffer, started_at);
                proof {
                    lemma_rendering_keeps_length(
                        prepared(before[index as int], params.samples@[index as int]),
                        *params,
                        voices_mixed(before, *params, silence, started_at, index as int),
                        started_at,
                    );
                }
            }
            index = index + 1;
        }
        let frames: usize = if channels == 0 {
            0
        } else {
            len / channels
        };
        self.process_count = match self.process_count.checked_add(frames as u64) {
            Some(sum) => sum,
            None => u64::MAX,
        };
        let ghost mix = buffer@;
        k = 0;
        while k < len
            invariant
                k <= len,
                len == given_len,
                buffer@.len() == len,
                mix.len() == len,
                forall|j: int|
                    0 <= j < k ==> buffer@[j] == level_product(mix[j] as int, params.gain as int),
                forall|j: int| k <= j < len ==> buffer@[j] == mix[j],
            decreases len - k,
        {
            let value: i64 = level_mul(buffer[k], params.gain);
            buffer.set(k, value);
            k = k + 1;
        }
        assert(buffer@ =~= with_master_gain(mix, params.gain as int));
        let ghost mixed_players = self@.players;
        let now: u64 = self.process_count;
        index = 0;
        while index < count
            invariant
                index <= count,
                count == before.len(),
                count == mixed_players.len(),
                self.sample_players@.len() == count,
                self.process_count == now,
                slots_match(SamplerState { players: before, process_count: 0 }, *params),
                forall|i: int|
                    0 <= i < count ==> (#[trigger] mixed_players[i]).index == before[i].index,
                forall|i: int|
                    0 <= i < index ==> (#[trigger] self.sample_players@[i])@ == (VoiceState {
                        playback_position: published_position(
                            mixed_players[i],
                            params.samples@[i],
                            now,
                        ),
                        ..mixed_players[i]
                    }),
                forall|i: int|
                    index <= i < count ==> (#[trigger] self.sample_players@[i])@
                        == mixed_players[i],
            decreases count - index,
        {
            assert(before[index as int].index == index);
            assert(mixed_players[index as int].index == index);
            self.sample_players[index].update_shared_position(params, now);
            index = index + 1;
        }
    }
}

/// Rendering a block changes the values of the output, never its length.
pub proof fn lemma_rendering_keeps_length(
    v: VoiceState,
    params: HardKickSamplerParams,
    output: Seq<i64>,
    process_count: u64,
)
    ensures
        block_rendered(v, params, output, process_count).output.len() == output.len(),
{
    crate::sample_wrapper::lemma_rendered_keeps_length(
        v.shifter,
        crate::sample_wrapper::Rendering { envelope: v.envelope, output, stopped: false },
        crate::sample_wrapper::block_settings(v, params, process_count),
        0,
        crate::sample_wrapper::frames_in(output.len(), v.host_channels) as int,
    );
}

} // verus!
