use hard_kick_sampler::fixed::{floor_div, level_add, level_mul, saturate, wide_product, ONE};
use hard_kick_sampler::utils::{
    check_extension, clipping_sub, full_scale, get_next_file_in_directory_wrap,
    get_previous_file_in_directory_wrap, get_root_note_from_filename,
    get_stretch_playback_position, interpolate, normalize_samples, note_from_chunk, scale,
    semitone_offset_to_playback_rate, semitones_to_note, LoadError,
};

#[test]
fn clipping_sub_subtracts_where_it_can() {
    assert_eq!(clipping_sub(5, 3), Some(2));
    assert_eq!(clipping_sub(3, 3), Some(0));
    assert_eq!(clipping_sub(3, 5), None);
    assert_eq!(clipping_sub(0, usize::MAX), None);
    assert_eq!(clipping_sub(usize::MAX, 0), Some(usize::MAX));
}

#[test]
fn floor_div_rounds_down() {
    assert_eq!(floor_div(7, 2), 3);
    assert_eq!(floor_div(-7, 2), -4);
    assert_eq!(floor_div(-8, 2), -4);
    assert_eq!(floor_div(0, 5), 0);
    assert_eq!(floor_div(i128::MIN, 1), i128::MIN);
}

#[test]
fn levels_multiply_and_saturate() {
    assert_eq!(level_mul(ONE, ONE), ONE);
    assert_eq!(level_mul(ONE / 2, ONE / 2), ONE / 4);
    assert_eq!(level_mul(-ONE / 2, ONE / 2), -ONE / 4);
    assert_eq!(level_mul(3, ONE / 2), 1);
    assert_eq!(level_mul(-3, ONE / 2), -2);
    assert_eq!(level_mul(i64::MAX, i64::MAX), i64::MAX);
    assert_eq!(level_mul(i64::MIN, i64::MAX), i64::MIN);
    assert_eq!(level_mul(i64::MIN, i64::MIN), i64::MAX);
    assert_eq!(level_mul(0, i64::MIN), 0);
}

#[test]
fn levels_add_and_saturate() {
    assert_eq!(level_add(ONE, ONE), 2 * ONE);
    assert_eq!(level_add(i64::MAX, 1), i64::MAX);
    assert_eq!(level_add(i64::MIN, -1), i64::MIN);
    assert_eq!(level_add(i64::MAX, i64::MIN), -1);
    assert_eq!(saturate(i128::MAX), i64::MAX);
    assert_eq!(saturate(i128::MIN), i64::MIN);
    assert_eq!(saturate(-5), -5);
    assert_eq!(wide_product(i64::MIN, i64::MIN), 1i128 << 126);
}

#[test]
fn interpolation_is_exact_at_the_ends_and_linear_between() {
    assert_eq!(interpolate(ONE, 2 * ONE, 0), ONE);
    assert_eq!(interpolate(ONE, 2 * ONE, 1 << 31), ONE + ONE / 2);
    assert_eq!(interpolate(ONE, 0, 1 << 30), ONE - ONE / 4);
    assert_eq!(interpolate(0, 3, 1 << 31), 1);
    assert_eq!(interpolate(0, -3, 1 << 31), -2);
    assert_eq!(interpolate(i64::MIN, i64::MAX, 0), i64::MIN);
    assert_eq!(interpolate(i64::MIN, i64::MAX, u32::MAX), i64::MAX - 4294967296);
    assert_eq!(interpolate(i64::MAX, i64::MIN, u32::MAX), i64::MIN + 4294967295);
}

#[test]
fn scaling_by_unity_changes_nothing() {
    for value in [0, 1, 12345, 1 << 32, u64::MAX] {
        assert_eq!(scale(value, ONE as u64), value);
    }
    assert_eq!(scale(10 << 32, (ONE / 2) as u64), 5 << 32);
    assert_eq!(scale(3, (ONE / 2) as u64), 1);
    assert_eq!(scale(u64::MAX, u64::MAX), u64::MAX);
    assert_eq!(scale(u64::MAX, 0), 0);
}

#[test]
fn playback_position_splits_into_index_and_fraction() {
    let one = ONE as u64;
    // One frame and a half into a stereo sample, second channel.
    assert_eq!(get_stretch_playback_position(3 << 31, one, one, 2, 1), (3, 1 << 31));
    // Twice the speed doubles the position.
    assert_eq!(get_stretch_playback_position(3 << 31, one, 2 * one, 2, 0), (6, 0));
    // Half the sample rate halves it.
    assert_eq!(get_stretch_playback_position(3 << 32, one / 2, one, 1, 0), (1, 1 << 31));
    // An index beyond the range saturates.
    assert_eq!(
        get_stretch_playback_position(u64::MAX, one, one, usize::MAX, usize::MAX),
        (u64::MAX, u32::MAX)
    );
}

#[test]
fn playback_rate_follows_equal_temperament() {
    let one = ONE as u64;
    assert_eq!(semitone_offset_to_playback_rate(0), one);
    assert_eq!(semitone_offset_to_playback_rate(12), 2 * one);
    assert_eq!(semitone_offset_to_playback_rate(24), 4 * one);
    assert_eq!(semitone_offset_to_playback_rate(-12), one / 2);
    assert_eq!(semitone_offset_to_playback_rate(-24), one / 4);
    assert_eq!(semitone_offset_to_playback_rate(1), 4550359341);
    assert_eq!(semitone_offset_to_playback_rate(7), 6435179894);
    assert_eq!(semitone_offset_to_playback_rate(19), 2 * 6435179894);
    assert_eq!(semitone_offset_to_playback_rate(-1), 4053909304);
    assert_eq!(semitone_offset_to_playback_rate(6), 6074000999);
}

#[test]
fn playback_rate_matches_the_twelfth_root_of_two() {
    for semitones in -36i64..=36 {
        let rate = semitone_offset_to_playback_rate(semitones) as f64 / ONE as f64;
        let exact = 2f64.powf(semitones as f64 / 12.0);
        assert!((rate - exact).abs() < 1e-8 * exact, "{} semitones", semitones);
    }
}

#[test]
fn playback_rate_saturates_at_both_ends() {
    assert_eq!(semitone_offset_to_playback_rate(12 * 31), (ONE as u64) << 31);
    assert_eq!(semitone_offset_to_playback_rate(12 * 32), u64::MAX);
    assert_eq!(semitone_offset_to_playback_rate(12 * 31 + 11), 8107818609 << 31);
    assert_eq!(semitone_offset_to_playback_rate(i64::MAX), u64::MAX);
    assert_eq!(semitone_offset_to_playback_rate(-12 * 32), 1);
    assert_eq!(semitone_offset_to_playback_rate(-12 * 33), 0);
    assert_eq!(semitone_offset_to_playback_rate(-12 * 33 + 11), 0);
    assert_eq!(semitone_offset_to_playback_rate(-12 * 32 + 11), 1);
    assert_eq!(semitone_offset_to_playback_rate(-12 * 34), 0);
    assert_eq!(semitone_offset_to_playback_rate(i64::MIN), 0);
}

#[test]
fn semitones_have_note_names() {
    let names = ["C", "C#", "D", "D#", "E", "F", "F#", "G", "G#", "A", "A#", "B"];
    for (semi, name) in names.iter().enumerate() {
        assert_eq!(semitones_to_note(semi as i32), *name);
        assert_eq!(semitones_to_note(semi as i32 + 12), *name);
        assert_eq!(semitones_to_note(semi as i32 - 24), *name);
    }
    assert_eq!(semitones_to_note(-1), "B");
    assert_eq!(semitones_to_note(-13), "B");
    assert_eq!(semitones_to_note(i32::MIN), "E");
    assert_eq!(semitones_to_note(i32::MAX), "G");
}

#[test]
fn chunks_name_notes() {
    assert_eq!(note_from_chunk("C"), Some(0));
    assert_eq!(note_from_chunk("C#"), Some(1));
    assert_eq!(note_from_chunk("CS"), Some(1));
    assert_eq!(note_from_chunk("DB"), Some(1));
    assert_eq!(note_from_chunk("D"), Some(2));
    assert_eq!(note_from_chunk("D#"), Some(3));
    assert_eq!(note_from_chunk("DS"), Some(3));
    assert_eq!(note_from_chunk("EB"), Some(3));
    assert_eq!(note_from_chunk("E"), Some(4));
    assert_eq!(note_from_chunk("F"), Some(5));
    assert_eq!(note_from_chunk("F#"), Some(6));
    assert_eq!(note_from_chunk("FS"), Some(6));
    assert_eq!(note_from_chunk("GB"), Some(6));
    assert_eq!(note_from_chunk("G"), Some(7));
    assert_eq!(note_from_chunk("G#"), Some(8));
    assert_eq!(note_from_chunk("GS"), Some(8));
    assert_eq!(note_from_chunk("AB"), Some(8));
    assert_eq!(note_from_chunk("A"), Some(9));
    assert_eq!(note_from_chunk("A#"), Some(10));
    assert_eq!(note_from_chunk("AS"), Some(10));
    assert_eq!(note_from_chunk("BB"), Some(10));
    assert_eq!(note_from_chunk("B"), Some(11));
    assert_eq!(note_from_chunk(""), None);
    assert_eq!(note_from_chunk("H"), None);
    assert_eq!(note_from_chunk("E#"), None);
    assert_eq!(note_from_chunk("CB"), None);
    assert_eq!(note_from_chunk("FB"), None);
    assert_eq!(note_from_chunk("c"), None);
    assert_eq!(note_from_chunk("C##"), None);
    assert_eq!(note_from_chunk("É"), None);
}

#[test]
fn root_note_is_read_from_the_last_chunk_that_names_a_note() {
    assert_eq!(get_root_note_from_filename(String::from("kick_C.wav")), Some(0));
    assert_eq!(get_root_note_from_filename(String::from("kick-F#-808.wav")), Some(6));
    assert_eq!(get_root_note_from_filename(String::from("Bass Gs 01.wav")), Some(8));
    assert_eq!(get_root_note_from_filename(String::from("A_kick_D.wav")), Some(2));
    assert_eq!(get_root_note_from_filename(String::from("a_b")), Some(11));
    assert_eq!(get_root_note_from_filename(String::from("E")), Some(4));
    assert_eq!(get_root_note_from_filename(String::from("kick.Bb")), Some(10));
}

#[test]
fn root_note_is_read_in_any_case_of_letters() {
    assert_eq!(get_root_note_from_filename(String::from("kick_c#.wav")), Some(1));
    assert_eq!(get_root_note_from_filename(String::from("kick_db.wav")), Some(1));
    assert_eq!(get_root_note_from_filename(String::from("kick_gS.wav")), Some(8));
    assert_eq!(get_root_note_from_filename(String::from("g")), Some(7));
}

#[test]
fn file_names_without_a_note_have_no_root_note() {
    assert_eq!(get_root_note_from_filename(String::new()), None);
    assert_eq!(get_root_note_from_filename(String::from("snare.wav")), None);
    assert_eq!(get_root_note_from_filename(String::from("kick_e#.wav")), None);
    assert_eq!(get_root_note_from_filename(String::from("___")), None);
    assert_eq!(get_root_note_from_filename(String::from("kick__01..wav")), None);
    assert_eq!(get_root_note_from_filename(String::from("Cmajor_chord.wav")), None);
    assert_eq!(get_root_note_from_filename(String::from("kíck_é.wav")), None);
}

fn names(list: &[&str]) -> Vec<String> {
    list.iter().map(|name| String::from(*name)).collect()
}

#[test]
fn next_file_wraps_to_the_first() {
    let entries = names(&["a.wav", "b.wav", "c.wav"]);
    assert_eq!(
        get_next_file_in_directory_wrap(&entries, "a.wav"),
        Some(String::from("b.wav"))
    );
    assert_eq!(
        get_next_file_in_directory_wrap(&entries, "b.wav"),
        Some(String::from("c.wav"))
    );
    assert_eq!(
        get_next_file_in_directory_wrap(&entries, "c.wav"),
        Some(String::from("a.wav"))
    );
}

#[test]
fn previous_file_wraps_to_the_last() {
    let entries = names(&["a.wav", "b.wav", "c.wav"]);
    assert_eq!(
        get_previous_file_in_directory_wrap(&entries, "a.wav"),
        Some(String::from("c.wav"))
    );
    assert_eq!(
        get_previous_file_in_directory_wrap(&entries, "b.wav"),
        Some(String::from("a.wav"))
    );
    assert_eq!(
        get_previous_file_in_directory_wrap(&entries, "c.wav"),
        Some(String::from("b.wav"))
    );
}

#[test]
fn neighbours_of_a_file_that_is_not_there_do_not_exist() {
    let entries = names(&["a.wav", "b.wav"]);
    assert_eq!(get_next_file_in_directory_wrap(&entries, "z.wav"), None);
    assert_eq!(get_previous_file_in_directory_wrap(&entries, "z.wav"), None);
    assert_eq!(get_next_file_in_directory_wrap(&Vec::new(), "a.wav"), None);
    assert_eq!(get_previous_file_in_directory_wrap(&Vec::new(), "a.wav"), None);
}

#[test]
fn the_only_file_of_a_directory_is_its_own_neighbour() {
    let entries = names(&["only.wav"]);
    assert_eq!(
        get_next_file_in_directory_wrap(&entries, "only.wav"),
        Some(String::from("only.wav"))
    );
    assert_eq!(
        get_previous_file_in_directory_wrap(&entries, "only.wav"),
        Some(String::from("only.wav"))
    );
}

#[test]
fn the_first_of_two_equal_names_counts() {
    let entries = names(&["a.wav", "b.wav", "a.wav", "c.wav"]);
    assert_eq!(
        get_next_file_in_directory_wrap(&entries, "a.wav"),
        Some(String::from("b.wav"))
    );
    assert_eq!(
        get_previous_file_in_directory_wrap(&entries, "a.wav"),
        Some(String::from("c.wav"))
    );
}

#[test]
fn only_wav_files_are_supported() {
    assert_eq!(check_extension(Some("wav")), Ok(()));
    assert_eq!(check_extension(Some("WAV")), Err(LoadError::UnsupportedFormat));
    assert_eq!(check_extension(Some("mp3")), Err(LoadError::UnsupportedFormat));
    assert_eq!(check_extension(Some("")), Err(LoadError::UnsupportedFormat));
    assert_eq!(check_extension(None), Err(LoadError::UnsupportedFormat));
}

#[test]
fn integer_samples_are_normalized_to_full_scale() {
    assert_eq!(full_scale(16), Ok(32767));
    assert_eq!(full_scale(24), Ok(8388607));
    assert_eq!(full_scale(32), Ok(i32::MAX));
    assert_eq!(
        normalize_samples(&vec![32767, -32767, 0, 16384, -1], 16),
        Ok(vec![ONE, -ONE, 0, 2147549186, -131077])
    );
    assert_eq!(
        normalize_samples(&vec![8388607, 4194304], 24),
        Ok(vec![ONE, 2147483904])
    );
    assert_eq!(
        normalize_samples(&vec![i32::MAX, i32::MIN, 0], 32),
        Ok(vec![ONE, -ONE - 3, 0])
    );
    assert_eq!(normalize_samples(&Vec::new(), 16), Ok(Vec::new()));
}

#[test]
fn samples_of_other_widths_are_refused() {
    assert_eq!(full_scale(8), Err(LoadError::UnsupportedBitDepth(8)));
    assert_eq!(
        normalize_samples(&vec![1, 2, 3], 8),
        Err(LoadError::UnsupportedBitDepth(8))
    );
    assert_eq!(
        normalize_samples(&Vec::new(), 0),
        Err(LoadError::UnsupportedBitDepth(0))
    );
    assert_eq!(
        normalize_samples(&vec![1], 64),
        Err(LoadError::UnsupportedBitDepth(64))
    );
}
