use hard_kick_sampler::adsr::{AdsrStage, MultiChannelAdsr};
use hard_kick_sampler::fixed::ONE;

/// A rate at which one sample lasts one microsecond.
const MEGAHERTZ: u32 = 1_000_000;

fn run(adsr: &mut MultiChannelAdsr, calls: usize, a: i32, d: i32, s: i64, r: i32) -> Vec<i64> {
    (0..calls).map(|_| adsr.next(a, d, s, r)).collect()
}

#[test]
fn attack_of_a_tenth_of_a_second_takes_4410_samples_at_44100() {
    let mut adsr = MultiChannelAdsr::new(44100);
    adsr.note_on();
    let attack_calls = (0.1f64 * 44100.0).ceil() as usize + 1;
    let values = run(&mut adsr, attack_calls, 100_000, 50_000, 3006477107, 200_000);
    assert_eq!(values.len(), 4411);
    assert!(matches!(adsr.stage(), AdsrStage::Decay));
    assert_eq!(adsr.current_value(), ONE);
    assert_eq!(values[1], 973915);
    assert_eq!(values[4409], 4293993380);

    let decay_calls = (0.05f64 * 44100.0).ceil() as usize + 1;
    let values = run(&mut adsr, decay_calls, 100_000, 50_000, 3006477107, 200_000);
    assert_eq!(values.len(), 2206);
    assert!(matches!(adsr.stage(), AdsrStage::Sustain));
    assert_eq!(adsr.current_value(), 3006477107);
    assert_eq!(values[0], ONE);
    assert_eq!(values[1], 4294382947);
    assert!((adsr.current_value() as f64 / ONE as f64 - 0.7).abs() < 1e-9);
}

#[test]
fn ramps_are_straight_lines() {
    let mut adsr = MultiChannelAdsr::new(MEGAHERTZ);
    adsr.note_on();
    assert_eq!(
        run(&mut adsr, 5, 4, 4, ONE / 2, 4),
        vec![0, ONE / 4, ONE / 2, 3 * ONE / 4, ONE]
    );
    assert!(matches!(adsr.stage(), AdsrStage::Decay));
    assert_eq!(
        run(&mut adsr, 5, 4, 4, ONE / 2, 4),
        vec![ONE, 7 * ONE / 8, 3 * ONE / 4, 5 * ONE / 8, ONE / 2]
    );
    assert!(matches!(adsr.stage(), AdsrStage::Sustain));
    assert_eq!(run(&mut adsr, 3, 4, 4, ONE / 2, 4), vec![ONE / 2; 3]);
    adsr.note_off();
    assert_eq!(
        run(&mut adsr, 5, 4, 4, ONE / 2, 4),
        vec![ONE / 2, 3 * ONE / 8, ONE / 4, ONE / 8, 0]
    );
    assert!(adsr.is_idling());
    assert!(!adsr.is_playing());
    assert_eq!(run(&mut adsr, 2, 4, 4, ONE / 2, 4), vec![0, 0]);
}

#[test]
fn ramps_round_down() {
    let mut adsr = MultiChannelAdsr::new(MEGAHERTZ);
    adsr.note_on();
    assert_eq!(
        run(&mut adsr, 4, 3, 0, -ONE, 3),
        vec![0, 1431655765, 2863311530, ONE]
    );
    assert!(matches!(adsr.stage(), AdsrStage::Sustain));
    adsr.note_off();
    // From -1 up to 0: -1, -2/3, -1/3, rounded down.
    assert_eq!(
        run(&mut adsr, 4, 3, 0, -ONE, 3),
        vec![-ONE, -2863311531, -1431655766, 0]
    );
}

#[test]
fn sustain_is_taken_as_it_is() {
    for sustain in [i64::MIN, -ONE, -1, 0, 1, ONE, 3 * ONE / 2, i64::MAX] {
        let mut adsr = MultiChannelAdsr::new(44100);
        adsr.note_on();
        // 333 µs of attack are 15 samples, 77 µs of decay are 4: 21 calls settle.
        let values = run(&mut adsr, 21, 333, 77, sustain, 10);
        assert!(matches!(adsr.stage(), AdsrStage::Sustain));
        assert_eq!(adsr.current_value(), sustain);
        assert_eq!(values[20], sustain);
        assert_eq!(run(&mut adsr, 10, 333, 77, sustain, 10), vec![sustain; 10]);
    }
}

#[test]
fn decay_towards_a_higher_sustain_rises() {
    let mut adsr = MultiChannelAdsr::new(MEGAHERTZ);
    adsr.note_on();
    run(&mut adsr, 1, 0, 2, 2 * ONE, 0);
    assert_eq!(
        run(&mut adsr, 3, 0, 2, 2 * ONE, 0),
        vec![ONE, 3 * ONE / 2, 2 * ONE]
    );
}

#[test]
fn stages_without_duration_take_one_call() {
    let mut adsr = MultiChannelAdsr::new(44100);
    adsr.note_on();
    assert_eq!(adsr.next(0, 0, 7, 0), ONE);
    assert!(matches!(adsr.stage(), AdsrStage::Sustain));
    assert_eq!(adsr.next(0, 0, 7, 0), 7);
    adsr.note_off();
    assert_eq!(adsr.next(0, 0, 7, 0), 0);
    assert!(adsr.is_idling());

    // Negative times count as no time at all.
    adsr.note_on();
    assert_eq!(adsr.next(i32::MIN, -1, 7, -5), ONE);
    assert!(matches!(adsr.stage(), AdsrStage::Sustain));
    adsr.note_off();
    assert_eq!(adsr.next(i32::MIN, -1, 7, -5), 0);
    assert!(adsr.is_idling());

    // A decay that lost its time passes in one call too.
    adsr.note_on();
    assert_eq!(adsr.next(0, 1000, 7, 0), ONE);
    assert!(matches!(adsr.stage(), AdsrStage::Decay));
    assert_eq!(adsr.next(0, 0, 7, 0), 7);
    assert!(matches!(adsr.stage(), AdsrStage::Sustain));
}

#[test]
fn at_a_sample_rate_of_zero_every_stage_is_over_at_once() {
    let mut adsr = MultiChannelAdsr::new(0);
    adsr.note_on();
    assert_eq!(adsr.next(i32::MAX, i32::MAX, 5, i32::MAX), ONE);
    assert!(matches!(adsr.stage(), AdsrStage::Decay));
    assert_eq!(adsr.next(i32::MAX, i32::MAX, 5, i32::MAX), 5);
    adsr.note_off();
    assert_eq!(adsr.next(i32::MAX, i32::MAX, 5, i32::MAX), 0);
    assert!(adsr.is_idling());
}

#[test]
fn the_longest_stage_at_the_highest_rate_does_not_overflow() {
    let mut adsr = MultiChannelAdsr::new(u32::MAX);
    adsr.note_on();
    assert_eq!(adsr.next(i32::MAX, i32::MAX, i64::MIN, i32::MAX), 0);
    assert_eq!(adsr.next(i32::MAX, i32::MAX, i64::MIN, i32::MAX), 0);
    assert_eq!(adsr.stage_progress(), 2);
    assert!(matches!(adsr.stage(), AdsrStage::Attack));
    adsr.note_off();
    assert_eq!(adsr.next(i32::MAX, i32::MAX, i64::MIN, i32::MAX), i64::MIN);
    assert_eq!(
        adsr.next(i32::MAX, i32::MAX, i64::MAX, i32::MAX),
        9223372036853775806
    );
}

#[test]
fn note_on_restarts_the_attack_from_any_stage() {
    let mut adsr = MultiChannelAdsr::new(MEGAHERTZ);
    adsr.note_on();
    run(&mut adsr, 7, 2, 2, ONE / 2, 4);
    assert!(matches!(adsr.stage(), AdsrStage::Sustain));
    adsr.note_on();
    assert!(matches!(adsr.stage(), AdsrStage::Attack));
    assert_eq!(adsr.stage_progress(), 0);
    // The value stays until the next call.
    assert_eq!(adsr.current_value(), ONE / 2);
    assert_eq!(adsr.next(2, 2, ONE / 2, 4), 0);
    adsr.note_off();
    adsr.note_on();
    assert!(matches!(adsr.stage(), AdsrStage::Attack));
}

#[test]
fn reset_brings_the_generator_to_rest() {
    let mut adsr = MultiChannelAdsr::new(MEGAHERTZ);
    adsr.note_on();
    run(&mut adsr, 3, 8, 2, ONE / 2, 4);
    adsr.reset();
    assert!(adsr.is_idling());
    assert_eq!(adsr.current_value(), 0);
    assert_eq!(adsr.stage_progress(), 0);
    assert_eq!(adsr.sample_rate(), MEGAHERTZ);
}

#[test]
fn other_channels_read_the_value_of_the_first() {
    let mut adsr = MultiChannelAdsr::new(MEGAHERTZ);
    adsr.note_on();
    for _ in 0..12 {
        let first = adsr.next_value(4, 4, ONE / 2, 4, true);
        let stage = adsr.stage();
        let progress = adsr.stage_progress();
        for _ in 0..3 {
            assert_eq!(adsr.next_value(4, 4, ONE / 2, 4, false), first);
            assert_eq!(adsr.stage(), stage);
            assert_eq!(adsr.stage_progress(), progress);
        }
    }
}
