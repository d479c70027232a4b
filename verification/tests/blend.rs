use hard_kick_sampler::fixed::ONE;
use hard_kick_sampler::params::BlendGroup;
use hard_kick_sampler::utils::get_blend_value;

const CENTER: i64 = 1_000_000;
const WIDTH: i64 = 500_000;

#[test]
fn unblended_voice_always_has_full_gain() {
    for t in [i64::MIN, -5, 0, 750_000, CENTER, 1_250_000, i64::MAX] {
        assert_eq!(get_blend_value(BlendGroup::Off, t, CENTER, WIDTH), ONE);
        assert_eq!(get_blend_value(BlendGroup::Off, t, CENTER, 0), ONE);
        assert_eq!(get_blend_value(BlendGroup::Off, t, CENTER, -WIDTH), ONE);
    }
}

#[test]
fn start_voice_is_full_before_the_window() {
    assert_eq!(get_blend_value(BlendGroup::Start, 0, CENTER, WIDTH), ONE);
    assert_eq!(get_blend_value(BlendGroup::Start, 749_999, CENTER, WIDTH), ONE);
    assert_eq!(get_blend_value(BlendGroup::Start, 750_000, CENTER, WIDTH), ONE);
}

#[test]
fn start_voice_is_silent_after_the_window() {
    assert_eq!(get_blend_value(BlendGroup::Start, 1_250_000, CENTER, WIDTH), 0);
    assert_eq!(get_blend_value(BlendGroup::Start, 1_250_001, CENTER, WIDTH), 0);
    assert_eq!(get_blend_value(BlendGroup::Start, i64::MAX, CENTER, WIDTH), 0);
}

#[test]
fn start_voice_falls_linearly_across_the_window() {
    assert_eq!(get_blend_value(BlendGroup::Start, 875_000, CENTER, WIDTH), 3221225472);
    assert_eq!(get_blend_value(BlendGroup::Start, CENTER, CENTER, WIDTH), ONE / 2);
    assert_eq!(get_blend_value(BlendGroup::Start, 1_125_000, CENTER, WIDTH), 1073741824);
}

#[test]
fn end_voice_rises_linearly_across_the_window() {
    assert_eq!(get_blend_value(BlendGroup::End, 0, CENTER, WIDTH), 0);
    assert_eq!(get_blend_value(BlendGroup::End, 750_000, CENTER, WIDTH), 0);
    assert_eq!(get_blend_value(BlendGroup::End, 875_000, CENTER, WIDTH), 1073741824);
    assert_eq!(get_blend_value(BlendGroup::End, CENTER, CENTER, WIDTH), ONE / 2);
    assert_eq!(get_blend_value(BlendGroup::End, 1_125_000, CENTER, WIDTH), 3221225472);
    assert_eq!(get_blend_value(BlendGroup::End, 1_250_000, CENTER, WIDTH), ONE);
    assert_eq!(get_blend_value(BlendGroup::End, 2_000_000, CENTER, WIDTH), ONE);
}

#[test]
fn end_voice_mirrors_start_voice_about_the_centre() {
    let mut t = 700_000;
    while t <= 1_300_000 {
        assert_eq!(
            get_blend_value(BlendGroup::End, t, CENTER, WIDTH),
            get_blend_value(BlendGroup::Start, 2 * CENTER - t, CENTER, WIDTH)
        );
        t += 12_345;
    }
}

#[test]
fn odd_width_is_not_rounded() {
    // The window of width 3 around 10 runs from 8.5 to 11.5.
    assert_eq!(get_blend_value(BlendGroup::Start, 8, 10, 3), ONE);
    assert_eq!(get_blend_value(BlendGroup::Start, 9, 10, 3), (ONE * 5) / 6);
    assert_eq!(get_blend_value(BlendGroup::Start, 10, 10, 3), ONE / 2);
    assert_eq!(get_blend_value(BlendGroup::Start, 11, 10, 3), ONE / 6);
    assert_eq!(get_blend_value(BlendGroup::Start, 12, 10, 3), 0);
}

#[test]
fn window_without_width_never_gives_an_undefined_gain() {
    assert_eq!(get_blend_value(BlendGroup::Start, CENTER - 1, CENTER, 0), ONE);
    assert_eq!(get_blend_value(BlendGroup::Start, CENTER, CENTER, 0), ONE);
    assert_eq!(get_blend_value(BlendGroup::Start, CENTER + 1, CENTER, 0), 0);
    assert_eq!(get_blend_value(BlendGroup::End, CENTER - 1, CENTER, 0), 0);
    assert_eq!(get_blend_value(BlendGroup::End, CENTER, CENTER, 0), ONE);
    assert_eq!(get_blend_value(BlendGroup::End, CENTER + 1, CENTER, 0), ONE);
}

#[test]
fn negative_width_gives_a_gain_in_range() {
    // The window is inside out: its start lies behind its end.
    assert_eq!(get_blend_value(BlendGroup::Start, CENTER, CENTER, -200), ONE);
    assert_eq!(get_blend_value(BlendGroup::Start, CENTER + 100, CENTER, -200), 0);
    assert_eq!(get_blend_value(BlendGroup::Start, CENTER + 1, CENTER, -2), 0);
    assert_eq!(get_blend_value(BlendGroup::End, CENTER, CENTER, -200), 0);
    assert_eq!(get_blend_value(BlendGroup::End, CENTER + 100, CENTER, -200), ONE);
}

#[test]
fn extreme_times_do_not_overflow() {
    for group in [BlendGroup::Off, BlendGroup::Start, BlendGroup::End] {
        for t in [i64::MIN, 0, i64::MAX] {
            for c in [i64::MIN, 0, i64::MAX] {
                for w in [i64::MIN, -1, 0, 1, i64::MAX] {
                    let gain = get_blend_value(group, t, c, w);
                    assert!(0 <= gain && gain <= ONE);
                }
            }
        }
    }
}
