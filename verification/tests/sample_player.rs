use hard_kick_sampler::adsr::AdsrStage;
use hard_kick_sampler::fixed::ONE;
use hard_kick_sampler::params::{BlendGroup, HardKickSamplerParams, SampleWrapperParams};
use hard_kick_sampler::pitch_shift::{PitchShiftKind, PitchShifter};
use hard_kick_sampler::sample_wrapper::{SamplePlayer, BASE_NOTE, DEFAULT_SAMPLE_RATE};
use hard_kick_sampler::tasks::AudioData;

/// A rate at which one frame lasts one microsecond.
const MEGAHERTZ: u32 = 1_000_000;

/// A player of slot 0 for a host of the given rate and channels, loaded with
/// a sample of the same rate.
fn loaded_player(
    params: &HardKickSamplerParams,
    rate: u32,
    host_channels: usize,
    sample_channels: u16,
    data: Vec<i64>,
) -> SamplePlayer {
    let mut player = SamplePlayer::new(params, 0);
    player.change_sample_rate_output(rate);
    player.change_channel_number(host_channels);
    player.load_and_set_audio_file("kick.wav", AudioData::new(sample_channels, rate, data));
    player
}

#[test]
fn default_parameters_leave_a_sample_as_it_is() {
    let params = HardKickSamplerParams::default();
    assert_eq!(params.samples.len(), 8);
    assert_eq!(params.gain, ONE);
    let slot = SampleWrapperParams::default();
    assert!(!slot.muted);
    assert!(slot.is_tonal);
    assert_eq!(slot.gain, ONE);
    assert_eq!(slot.root_note, 0);
    assert_eq!(slot.semitone_offset, 0);
    assert_eq!(slot.attack, 0);
    assert_eq!(slot.decay, 100_000);
    assert_eq!(slot.sustain, ONE);
    assert_eq!(slot.release, 10_000);
    assert!(matches!(slot.blend_group, BlendGroup::Off));
    assert!(matches!(slot.pitch_shift_kind, PitchShiftKind::Classic));
}

#[test]
fn a_new_player_is_silent() {
    let params = HardKickSamplerParams::default();
    let mut player = SamplePlayer::new(&params, 3);
    assert_eq!(player.index(), 3);
    assert!(player.is_silent(&params));
    assert!(!player.is_muted(&params));
    assert!(player.sample_path().is_none());
    assert_eq!(player.midi_note(), None);
    assert_eq!(player.envelope().sample_rate(), DEFAULT_SAMPLE_RATE);
    // Without a sample a note does not start.
    player.start_playing(&params, 60, ONE);
    assert!(player.is_silent(&params));
    assert!(player.envelope().is_idling());
    assert_eq!(player.midi_note(), None);
    let mut buffer = vec![7i64; 4];
    player.process(&params, &mut buffer, 0);
    assert_eq!(buffer, vec![7; 4]);
}

#[test]
fn a_voice_renders_its_sample_on_top_of_the_block() {
    let params = HardKickSamplerParams::default();
    let data = vec![ONE / 2, ONE / 4, -ONE / 2, ONE];
    let mut player = loaded_player(&params, 48000, 2, 1, data);
    assert_eq!(player.sample_path().map(|p| p.as_str()), Some("kick.wav"));
    assert!(player.is_silent(&params));
    player.start_playing(&params, BASE_NOTE, ONE);
    assert!(!player.is_silent(&params));
    assert_eq!(player.midi_note(), Some(0));
    assert!(player.shifter().ready());

    // A mono sample reaches the first channel of the host only.
    let mut buffer = vec![1i64, 2, 3, 4, 5, 6, 7, 8];
    player.process(&params, &mut buffer, 0);
    assert_eq!(
        buffer,
        vec![1 + ONE / 2, 2, 3 + ONE / 4, 4, 5 - ONE / 2, 6, 7 + ONE, 8]
    );
    assert!(!player.is_silent(&params));
}

#[test]
fn a_voice_stops_at_once_where_its_sample_ends() {
    let params = HardKickSamplerParams::default();
    let mut player = loaded_player(&params, 48000, 1, 1, vec![ONE, ONE, ONE]);
    player.start_playing(&params, BASE_NOTE, ONE);
    let mut buffer = vec![0i64; 5];
    player.process(&params, &mut buffer, 0);
    assert_eq!(buffer, vec![ONE, ONE, ONE, 0, 0]);
    assert!(player.is_silent(&params));
    assert!(player.envelope().is_idling());
    assert_eq!(player.envelope().current_value(), 0);
    assert_eq!(player.midi_note(), None);
    // The sample stays loaded, and the next note plays it again.
    player.start_playing(&params, BASE_NOTE, ONE);
    let mut buffer = vec![0i64; 2];
    player.process(&params, &mut buffer, 0);
    assert_eq!(buffer, vec![ONE, ONE]);
    let mut buffer = vec![0i64; 2];
    player.process(&params, &mut buffer, 2);
    assert_eq!(buffer, vec![ONE, 0]);
    assert!(player.is_silent(&params));
}

#[test]
fn a_stereo_sample_fills_both_channels() {
    let params = HardKickSamplerParams::default();
    let mut player = loaded_player(&params, 48000, 2, 2, vec![1, 2, 3, 4]);
    player.start_playing(&params, BASE_NOTE, ONE);
    let mut buffer = vec![0i64; 4];
    player.process(&params, &mut buffer, 0);
    assert_eq!(buffer, vec![1, 2, 3, 4]);

    // A host with one channel takes the first channel of the sample.
    let mut player = loaded_player(&params, 48000, 1, 2, vec![1, 2, 3, 4]);
    player.start_playing(&params, BASE_NOTE, ONE);
    let mut buffer = vec![0i64; 2];
    player.process(&params, &mut buffer, 0);
    assert_eq!(buffer, vec![1, 3]);

    // A host with three channels leaves the third one alone, and a
    // buffer that ends inside a frame keeps its tail.
    let mut player = loaded_player(&params, 48000, 3, 2, vec![1, 2, 3, 4]);
    player.start_playing(&params, BASE_NOTE, ONE);
    let mut buffer = vec![0i64; 8];
    player.process(&params, &mut buffer, 0);
    assert_eq!(buffer, vec![1, 2, 0, 3, 4, 0, 0, 0]);
}

#[test]
fn a_host_without_channels_has_no_frames() {
    let params = HardKickSamplerParams::default();
    let mut player = loaded_player(&params, 48000, 0, 1, vec![ONE, ONE]);
    player.start_playing(&params, BASE_NOTE, ONE);
    let mut buffer = vec![5i64; 4];
    player.process(&params, &mut buffer, 0);
    assert_eq!(buffer, vec![5; 4]);
    assert!(!player.is_silent(&params));
}

#[test]
fn gains_multiply() {
    let mut params = HardKickSamplerParams::default();
    params.gain = ONE / 2;
    params.samples[0].gain = ONE / 4;
    let mut player = loaded_player(&params, 48000, 1, 1, vec![ONE, -ONE, 8]);
    player.start_playing(&params, BASE_NOTE, ONE);
    let mut buffer = vec![0i64; 3];
    player.process(&params, &mut buffer, 0);
    assert_eq!(buffer, vec![ONE / 8, -ONE / 8, 1]);
}

#[test]
fn the_mix_saturates() {
    let mut params = HardKickSamplerParams::default();
    params.gain = 4 * ONE;
    let mut player = loaded_player(&params, 48000, 1, 1, vec![i64::MAX, i64::MIN, ONE]);
    player.start_playing(&params, BASE_NOTE, ONE);
    let mut buffer = vec![0, 0, i64::MAX];
    player.process(&params, &mut buffer, 0);
    assert_eq!(buffer, vec![i64::MAX, i64::MIN, i64::MAX]);
}

#[test]
fn the_envelope_shapes_the_voice() {
    let mut params = HardKickSamplerParams::default();
    params.samples[0].attack = 4;
    params.samples[0].decay = 2;
    params.samples[0].sustain = ONE / 2;
    params.samples[0].release = 2;
    let mut player = loaded_player(&params, MEGAHERTZ, 1, 1, vec![ONE; 16]);
    player.start_playing(&params, BASE_NOTE, ONE);
    let mut buffer = vec![0i64; 9];
    player.process(&params, &mut buffer, 0);
    assert_eq!(
        buffer,
        vec![
            0,
            ONE / 4,
            ONE / 2,
            3 * ONE / 4,
            ONE,
            ONE,
            3 * ONE / 4,
            ONE / 2,
            ONE / 2
        ]
    );
    assert!(matches!(player.envelope().stage(), AdsrStage::Sustain));
    player.stop_playing();
    assert!(matches!(player.envelope().stage(), AdsrStage::Release));
    let mut buffer = vec![0i64; 4];
    player.process(&params, &mut buffer, 9);
    assert_eq!(buffer, vec![ONE / 2, ONE / 4, 0, 0]);
    assert!(player.is_silent(&params));
    // The note is over, the sample is not: the voice was not reset.
    assert_eq!(player.midi_note(), Some(0));
}

#[test]
fn the_blend_gain_is_taken_at_the_start_of_the_block() {
    let mut params = HardKickSamplerParams::default();
    params.blend_time = 4;
    params.blend_transition = 8;
    params.samples[0].blend_group = BlendGroup::Start;
    let mut player = loaded_player(&params, MEGAHERTZ, 1, 1, vec![ONE; 32]);
    player.start_playing(&params, BASE_NOTE, ONE);
    let mut buffer = vec![0i64; 2];
    player.process(&params, &mut buffer, 0);
    assert_eq!(buffer, vec![ONE, ONE]);
    let mut buffer = vec![0i64; 2];
    player.process(&params, &mut buffer, 2);
    assert_eq!(buffer, vec![3 * ONE / 4, 3 * ONE / 4]);
    let mut buffer = vec![0i64; 2];
    player.process(&params, &mut buffer, 4);
    assert_eq!(buffer, vec![ONE / 2, ONE / 2]);
    let mut buffer = vec![0i64; 2];
    player.process(&params, &mut buffer, 8);
    assert_eq!(buffer, vec![0, 0]);

    params.samples[0].blend_group = BlendGroup::End;
    let mut buffer = vec![0i64; 2];
    player.process(&params, &mut buffer, 2);
    assert_eq!(buffer, vec![ONE / 4, ONE / 4]);
}

#[test]
fn a_muted_voice_renders_nothing() {
    let mut params = HardKickSamplerParams::default();
    let mut player = loaded_player(&params, 48000, 1, 1, vec![ONE; 4]);
    player.start_playing(&params, BASE_NOTE, ONE);
    params.samples[0].muted = true;
    assert!(player.is_muted(&params));
    assert!(player.is_silent(&params));
    let mut buffer = vec![3i64; 4];
    player.process(&params, &mut buffer, 0);
    assert_eq!(buffer, vec![3; 4]);
    // The envelope did not move.
    assert!(matches!(player.envelope().stage(), AdsrStage::Attack));
    assert_eq!(player.envelope().stage_progress(), 0);
}

#[test]
fn the_note_and_the_tuning_set_the_playback_rate() {
    let mut params = HardKickSamplerParams::default();
    let mut player = loaded_player(&params, 48000, 1, 1, (0..32).map(|n| n * ONE).collect());
    let one = ONE as u64;
    assert_eq!(player.get_playback_rate(&params), one);
    player.start_playing(&params, 72, ONE);
    assert_eq!(player.midi_note(), Some(12));
    assert_eq!(player.get_playback_rate(&params), 2 * one);
    let mut buffer = vec![0i64; 4];
    player.process(&params, &mut buffer, 0);
    assert_eq!(buffer, vec![0, 2 * ONE, 4 * ONE, 6 * ONE]);

    params.samples[0].semitone_offset = -24;
    assert_eq!(player.get_playback_rate(&params), one / 2);
    params.samples[0].root_note = 3;
    assert_eq!(player.get_playback_rate(&params), 7223245205 / 4);
    params.samples[0].is_tonal = false;
    assert_eq!(player.get_playback_rate(&params), one / 4);
    params.samples[0].semitone_offset = 0;
    assert_eq!(player.get_playback_rate(&params), one);

    player.start_playing(&params, 0, ONE);
    assert_eq!(player.midi_note(), Some(-60));
    player.start_playing(&params, 255, ONE);
    assert_eq!(player.midi_note(), Some(195));
    params.samples[0].is_tonal = true;
    params.samples[0].semitone_offset = i32::MAX;
    params.samples[0].root_note = i32::MIN;
    assert_eq!(player.get_playback_rate(&params), u64::MAX);
    params.samples[0].semitone_offset = i32::MIN;
    params.samples[0].root_note = i32::MAX;
    assert_eq!(player.get_playback_rate(&params), 0);
}

#[test]
fn the_rates_of_sample_and_host_set_the_correction() {
    let params = HardKickSamplerParams::default();
    let mut player = SamplePlayer::new(&params, 0);
    player.change_channel_number(1);
    player.load_and_set_audio_file(
        "kick.wav",
        AudioData::new(1, 44100, (0..32).map(|n| n * ONE).collect()),
    );
    assert_eq!(player.get_sr_correction(), 3946001203);
    player.change_sample_rate_output(44100);
    assert_eq!(player.get_sr_correction(), ONE as u64);
    assert_eq!(player.envelope().sample_rate(), 44100);
    player.change_sample_rate_output(22050);
    assert_eq!(player.get_sr_correction(), 2 * ONE as u64);
    player.start_playing(&params, BASE_NOTE, ONE);
    let mut buffer = vec![0i64; 3];
    player.process(&params, &mut buffer, 1);
    assert_eq!(buffer, vec![2 * ONE, 4 * ONE, 6 * ONE]);
    player.change_sample_rate_output(0);
    assert_eq!(player.get_sr_correction(), u64::MAX);
    player.change_sample_rate_output(u32::MAX);
    assert_eq!(player.get_sr_correction(), 44100);
}

#[test]
fn the_position_is_published_in_whole_frames() {
    let mut params = HardKickSamplerParams::default();
    let mut player = loaded_player(&params, 48000, 1, 1, vec![ONE; 64]);
    player.update_shared_position(&params, 10);
    assert_eq!(player.get_shared_position(), 0);
    params.samples[0].semitone_offset = 7;
    player.start_playing(&params, BASE_NOTE, ONE);
    player.update_shared_position(&params, 10);
    // Ten frames at a fifth above: 14.98 frames of the sample.
    assert_eq!(player.get_shared_position(), 14);
    player.update_shared_position(&params, 0);
    assert_eq!(player.get_shared_position(), 0);
    player.update_shared_position(&params, u64::MAX);
    assert_eq!(player.get_shared_position(), u32::MAX as u64);
    player.reset();
    player.update_shared_position(&params, 10);
    assert_eq!(player.get_shared_position(), 0);
}

#[test]
fn clearing_drops_the_sample() {
    let params = HardKickSamplerParams::default();
    let mut player = loaded_player(&params, 48000, 1, 1, vec![ONE; 4]);
    player.start_playing(&params, BASE_NOTE, ONE);
    player.clear_sample();
    assert!(player.is_silent(&params));
    assert!(player.sample_path().is_none());
    assert!(player.envelope().is_idling());
    assert!(!player.shifter().ready());
    assert_eq!(player.get_sr_correction(), 0);
    player.start_playing(&params, BASE_NOTE, ONE);
    assert!(player.is_silent(&params));

    let mut player = loaded_player(&params, 48000, 1, 1, vec![ONE; 4]);
    player.start_playing(&params, BASE_NOTE, ONE);
    player.cleanup_wrapper();
    assert!(player.is_silent(&params));
    assert_eq!(player.midi_note(), None);
    assert!(!player.shifter().ready());
    // The path is kept for the sample to be loaded from again.
    assert_eq!(player.sample_path().map(|p| p.as_str()), Some("kick.wav"));
    player.load_preset_sample(AudioData::new(1, 48000, vec![3, 4]));
    player.start_playing(&params, BASE_NOTE, ONE);
    let mut buffer = vec![0i64; 2];
    player.process(&params, &mut buffer, 0);
    assert_eq!(buffer, vec![3, 4]);
}

#[test]
fn reset_ends_the_note_and_keeps_the_sample() {
    let params = HardKickSamplerParams::default();
    let mut player = loaded_player(&params, 48000, 1, 1, vec![ONE; 4]);
    player.start_playing(&params, BASE_NOTE, ONE);
    player.reset();
    assert!(player.is_silent(&params));
    assert_eq!(player.midi_note(), None);
    assert!(player.shifter().ready());
    player.stop_playing();
    assert!(player.envelope().is_idling());
}

#[test]
fn a_new_sample_waits_for_the_next_block() {
    let params = HardKickSamplerParams::default();
    let mut player = loaded_player(&params, 48000, 1, 1, vec![1, 2, 3, 4]);
    player.start_playing(&params, BASE_NOTE, ONE);
    // A sample that arrives while the note sounds is not triggered yet ...
    player.load_and_set_audio_file("snare.wav", AudioData::new(1, 48000, vec![5, 6, 7, 8]));
    assert!(!player.shifter().ready());
    // ... the next block finds the shifter not ready, and arms it for the note.
    let mut buffer = vec![0i64; 2];
    player.process(&params, &mut buffer, 1);
    assert_eq!(buffer, vec![6, 7]);
    assert!(player.shifter().ready());
}

#[test]
fn a_slot_can_change_its_strategy_while_a_note_sounds() {
    let mut params = HardKickSamplerParams::default();
    let mut player = loaded_player(&params, 48000, 1, 1, vec![1, 2, 3, 4]);
    player.start_playing(&params, BASE_NOTE, ONE);
    assert!(matches!(player.shifter().kind(), PitchShiftKind::Classic));
    assert!(player.pitch_request().is_none());

    params.samples[0].pitch_shift_kind = PitchShiftKind::Psola;
    player.prepare_shifter(&params);
    assert!(matches!(player.shifter().kind(), PitchShiftKind::Psola));
    assert!(!player.shifter().ready());
    let request = player.pitch_request().unwrap();
    assert_eq!(request.signal, vec![1, 2, 3, 4]);
    assert_eq!(request.sample_rate, 48000);
    assert!(player.synthesis_request().is_none());

    // A period of two frames; the note sounds, so a stream is asked for.
    player.pitch_detected(&params, Some(24000 << 32));
    assert!(player.pitch_request().is_none());
    let request = player.synthesis_request().unwrap();
    assert_eq!(request.speed, ONE as u64);
    assert_eq!(request.wavelength, 2 << 32);
    assert_eq!(request.skip, 3);
    assert_eq!(player.shifter().analysis_input(0), vec![0, 0, 0, 1, 2, 3, 4]);
    player.synthesis_done(vec![vec![0, 0, 0, 10, 20, 30]]);
    assert!(player.shifter().ready());

    player.prepare_shifter(&params);
    assert!(player.shifter().ready());
    let mut buffer = vec![0i64; 4];
    player.process(&params, &mut buffer, 0);
    assert_eq!(buffer, vec![10, 20, 30, 0]);
    assert!(player.is_silent(&params));

    // Back to direct resampling: nothing is to be done for it.
    params.samples[0].pitch_shift_kind = PitchShiftKind::Classic;
    player.start_playing(&params, BASE_NOTE, ONE);
    let mut buffer = vec![0i64; 2];
    player.process(&params, &mut buffer, 0);
    assert_eq!(buffer, vec![1, 2]);
    assert!(matches!(player.shifter().kind(), PitchShiftKind::Classic));
}

#[test]
fn a_voice_without_a_pitch_falls_silent() {
    let mut params = HardKickSamplerParams::default();
    params.samples[0].pitch_shift_kind = PitchShiftKind::Psola;
    let mut player = loaded_player(&params, 48000, 1, 1, vec![0; 16]);
    player.start_playing(&params, BASE_NOTE, ONE);
    player.prepare_shifter(&params);
    assert!(player.pitch_request().is_some());
    player.pitch_detected(&params, None);
    assert!(player.pitch_request().is_none());
    assert!(player.synthesis_request().is_none());
    let mut buffer = vec![9i64; 4];
    player.process(&params, &mut buffer, 0);
    assert_eq!(buffer, vec![9; 4]);
    assert!(player.is_silent(&params));
    assert!(!player.shifter().ready());
}

#[test]
fn a_pitch_found_between_two_notes_waits_for_the_next_note() {
    let mut params = HardKickSamplerParams::default();
    params.samples[0].pitch_shift_kind = PitchShiftKind::Psola;
    let mut player = loaded_player(&params, 48000, 1, 1, vec![1, 2, 3, 4]);
    player.prepare_shifter(&params);
    assert!(player.pitch_request().is_some());
    player.pitch_detected(&params, Some(24000 << 32));
    assert!(player.pitch_request().is_none());
    assert!(player.synthesis_request().is_none());
    player.start_playing(&params, BASE_NOTE, ONE);
    assert!(player.synthesis_request().is_some());
}
