//! Small rules that the rest of the engine shares: interpolation, the blend
//! crossfade, playback positions, note names and the order of the files of a
//! directory.

use vstd::prelude::*;
use crate::fixed::{floor_div, lemma_share_bounds, share, ONE};
use crate::params::BlendGroup;
use vstd::string::StrSliceExecFns;
use vstd::arithmetic::power2::{lemma2_to64, lemma_pow2_unfold, pow2};

verus! {

/// `lhs - rhs` where that is not negative.
pub fn clipping_sub(lhs: usize, rhs: usize) -> (difference: Option<usize>)
    ensures
        lhs >= rhs ==> difference == Some((lhs - rhs) as usize),
        lhs < rhs ==> difference is None,
{
    if lhs >= rhs {
        Some(lhs - rhs)
    } else {
        None
    }
}

/// The point between `current` and `next` that lies `fraction / ONE` of the
/// way from the first to the second, rounded down.
pub open spec fn interpolated(current: int, next: int, fraction: int) -> int {
    current + share(next - current, fraction, ONE as int)
}

/// Linear interpolation between two sample values; `fraction` is the
/// fractional part of a position, in units of `1 / ONE`.
pub fn interpolate(current: i64, next: i64, fraction: u32) -> (r: i64)
    ensures
        r == interpolated(current as int, next as int, fraction as int),
        current <= next ==> current <= r <= next,
        next <= current ==> next <= r <= current,
        fraction == 0 ==> r == current,
{
    let span: i128 = next as i128 - current as i128;
    proof {
        lemma_share_bounds(span as int, fraction as int, ONE as int);
        assert(span * fraction >= -0x2_0000_0000_0000_0000_0000_0000 && span * fraction
            <= 0x2_0000_0000_0000_0000_0000_0000) by (nonlinear_arith)
            requires
                -0x1_0000_0000_0000_0000 <= span <= 0x1_0000_0000_0000_0000,
                0 <= fraction <= 0x1_0000_0000,
        ;
    }
    let step: i128 = floor_div(span * (fraction as i128), 0x1_0000_0000i128);
    (current as i128 + step) as i64
}

/// A position or a rate after scaling by `factor / ONE`, rounded down and
/// saturated at the end of the `u64` range.
pub open spec fn scaled(value: int, factor: int) -> int {
    let exact = (value * factor) / (ONE as int);
    if exact > u64::MAX {
        u64::MAX as int
    } else {
        exact
    }
}

/// Scales a position or a rate by a fixed-point factor.
pub fn scale(value: u64, factor: u64) -> (r: u64)
    ensures
        r == scaled(value as int, factor as int),
        factor == ONE ==> r == value,
{
    assert(0 <= value * factor <= 0xffff_ffff_ffff_fffe_0000_0000_0000_0001) by (nonlinear_arith)
        requires
            0 <= value <= 0xffff_ffff_ffff_ffff,
            0 <= factor <= 0xffff_ffff_ffff_ffff,
    ;
    proof {
        if factor == ONE {
            crate::fixed::lemma_floor_div_exact(value as int, ONE as int);
        }
    }
    let exact: u128 = (value as u128) * (factor as u128) / 0x1_0000_0000u128;
    if exact > 0xffff_ffff_ffff_ffffu128 {
        u64::MAX
    } else {
        exact as u64
    }
}

/// The position in the source that a voice has reached after `position` host
/// frames: scaled first by the sample-rate correction, then by the playback
/// rate.
pub open spec fn pitched_position(position: int, sr_correction: int, playback_rate: int) -> int {
    scaled(scaled(position, sr_correction), playback_rate)
}

/// The index into an interleaved buffer of the sample of channel
/// `channel_index` in frame `frame_index`, saturated at the end of the `u64`
/// range: no buffer holds a sample at the saturated index.
pub open spec fn interleaved_index(frame_index: int, num_channels: int, channel_index: int) -> int {
    let exact = frame_index * num_channels + channel_index;
    if exact > u64::MAX {
        u64::MAX as int
    } else {
        exact
    }
}

/// Where in an interleaved buffer of `num_channels` channels the sample of
/// channel `channel_index` lies after `process_count` host frames, and how
/// far the position is past that sample: the index of the sample, and the
/// fractional part of the position in units of `1 / ONE`.
pub fn get_stretch_playback_position(
    process_count: u64,
    sr_correction: u64,
    playback_rate: u64,
    num_channels: usize,
    channel_index: usize,
) -> (place: (u64, u32))
    ensures
        place.0 == interleaved_index(
            pitched_position(process_count as int, sr_correction as int, playback_rate as int)
                / (ONE as int),
            num_channels as int,
            channel_index as int,
        ),
        place.1 == pitched_position(
            process_count as int,
            sr_correction as int,
            playback_rate as int,
        ) % (ONE as int),
{
    let raw_playback_position: u64 = scale(process_count, sr_correction);
    let pitched: u64 = scale(raw_playback_position, playback_rate);
    let frame_index: u64 = pitched / 0x1_0000_0000u64;
    let fraction: u32 = (pitched % 0x1_0000_0000u64) as u32;
    assert(0 <= frame_index * num_channels <= 0xffff_ffff_0000_0000_0000_0000) by (nonlinear_arith)
        requires
            0 <= frame_index <= 0xffff_ffff,
            0 <= num_channels <= 0xffff_ffff_ffff_ffff,
    ;
    let exact: u128 = (frame_index as u128) * (num_channels as u128) + channel_index as u128;
    let sample_index: u64 = if exact > 0xffff_ffff_ffff_ffffu128 {
        u64::MAX
    } else {
        exact as u64
    };
    (sample_index, fraction)
}

/// At unity rates a whole number of host frames lands exactly on the frame
/// of that number, with nothing left over.
pub proof fn lemma_unity_rates_land_on_frames(frame: int)
    requires
        0 <= frame <= 0xffff_ffff,
    ensures
        pitched_position(frame * ONE, ONE as int, ONE as int) == frame * ONE,
        pitched_position(frame * ONE, ONE as int, ONE as int) / (ONE as int) == frame,
        pitched_position(frame * ONE, ONE as int, ONE as int) % (ONE as int) == 0,
{
    let p = frame * ONE;
    crate::fixed::lemma_floor_div_exact(p, ONE as int);
    crate::fixed::lemma_floor_div_exact(frame, ONE as int);
    assert(scaled(p, ONE as int) == p);
    assert(p / (ONE as int) == frame);
    assert(p % (ONE as int) == 0) by {
        vstd::arithmetic::div_mod::lemma_fundamental_div_mod(p, ONE as int);
        vstd::arithmetic::mul::lemma_mul_is_commutative(frame, ONE as int);
    }
}

/// The frequency ratio of `step` semitones within an octave, in fixed
/// point, rounded down: the twelfth root of two to the power `step`.
pub open spec fn semitone_ratio(step: int) -> int {
    if step == 1 {
        4550359341
    } else if step == 2 {
        4820937788
    } else if step == 3 {
        5107605667
    } else if step == 4 {
        5411319704
    } else if step == 5 {
        5733093519
    } else if step == 6 {
        6074000999
    } else if step == 7 {
        6435179894
    } else if step == 8 {
        6817835603
    } else if step == 9 {
        7223245205
    } else if step == 10 {
        7652761716
    } else if step == 11 {
        8107818609
    } else {
        4294967296
    }
}

/// The twelfth power of a number.
pub open spec fn twelfth_power(x: int) -> int {
    let square = x * x;
    let cube = square * x;
    let sixth = cube * cube;
    sixth * sixth
}

/// The playback rate that shifts the pitch by `semitones` semitones, in
/// fixed point: two to the power `semitones / 12`. Whole octaves double or
/// halve the ratio of the steps that are left over; the result is rounded
/// down, and saturated at the end of the `u64` range.
pub open spec fn playback_rate_of(semitones: int) -> int {
    let octave = semitones / 12;
    let base = semitone_ratio(semitones % 12);
    if octave >= 0 {
        let exact = base * pow2(octave as nat);
        if exact > u64::MAX {
            u64::MAX as int
        } else {
            exact
        }
    } else {
        base / (pow2((-octave) as nat) as int)
    }
}

/// Each entry of the table of semitone ratios is the twelfth root of the
/// matching power of two, rounded down to 32 fractional bits: its twelfth
/// power does not exceed that power of two, and that of the next number up
/// does.
pub proof fn lemma_semitone_ratios_are_twelfth_roots(step: int)
    requires
        0 <= step < 12,
    ensures
        twelfth_power(semitone_ratio(step)) <= pow2(step as nat) * twelfth_power(ONE as int),
        pow2(step as nat) * twelfth_power(ONE as int) < twelfth_power(semitone_ratio(step) + 1),
{
    lemma2_to64();
    if step == 0 {
        assert(twelfth_power(4294967296) <= 1 * twelfth_power(4294967296) < twelfth_power(4294967297))
            by (nonlinear_arith);
    } else if step == 1 {
        assert(twelfth_power(4550359341) <= 2 * twelfth_power(4294967296) < twelfth_power(4550359342))
            by (nonlinear_arith);
    } else if step == 2 {
        assert(twelfth_power(4820937788) <= 4 * twelfth_power(4294967296) < twelfth_power(4820937789))
            by (nonlinear_arith);
    } else if step == 3 {
        assert(twelfth_power(5107605667) <= 8 * twelfth_power(4294967296) < twelfth_power(5107605668))
            by (nonlinear_arith);
    } else if step == 4 {
        assert(twelfth_power(5411319704) <= 16 * twelfth_power(4294967296) < twelfth_power(5411319705))
            by (nonlinear_arith);
    } else if step == 5 {
        assert(twelfth_power(5733093519) <= 32 * twelfth_power(4294967296) < twelfth_power(5733093520))
            by (nonlinear_arith);
    } else if step == 6 {
        assert(twelfth_power(6074000999) <= 64 * twelfth_power(4294967296) < twelfth_power(6074001000))
            by (nonlinear_arith);
    } else if step == 7 {
        assert(twelfth_power(6435179894) <= 128 * twelfth_power(4294967296) < twelfth_power(6435179895))
            by (nonlinear_arith);
    } else if step == 8 {
        assert(twelfth_power(6817835603) <= 256 * twelfth_power(4294967296) < twelfth_power(6817835604))
            by (nonlinear_arith);
    } else if step == 9 {
        assert(twelfth_power(7223245205) <= 512 * twelfth_power(4294967296) < twelfth_power(7223245206))
            by (nonlinear_arith);
    } else if step == 10 {
        assert(twelfth_power(7652761716) <= 1024 * twelfth_power(4294967296) < twelfth_power(7652761717))
            by (nonlinear_arith);
    } else if step == 11 {
        assert(twelfth_power(8107818609) <= 2048 * twelfth_power(4294967296) < twelfth_power(8107818610))
            by (nonlinear_arith);
    }
}

/// No shift leaves the rate at unity, and an octave up doubles it.
pub proof fn lemma_playback_rate_landmarks()
    ensures
        playback_rate_of(0) == ONE,
        playback_rate_of(12) == 2 * ONE,
        playback_rate_of(-12) == ONE / 2,
{
    lemma2_to64();
    assert(12int / 12 == 1 && 12int % 12 == 0);
    assert((-12int) / 12 == -1 && (-12int) % 12 == 0);
    assert(pow2(1) == 2);
}

/// The playback rate that shifts the pitch by `semitones` semitones.
pub fn semitone_offset_to_playback_rate(semitones: i64) -> (rate: u64)
    ensures
        rate == playback_rate_of(semitones as int),
{
    let octave: i64 = match semitones.checked_div_euclid(12) {
        Some(q) => q,
        None => 0,
    };
    let step: i64 = match semitones.checked_rem_euclid(12) {
        Some(r) => r,
        None => 0,
    };
    let base: u64 = if step == 1 {
        4550359341
    } else if step == 2 {
        4820937788
    } else if step == 3 {
        5107605667
    } else if step == 4 {
        5411319704
    } else if step == 5 {
        5733093519
    } else if step == 6 {
        6074000999
    } else if step == 7 {
        6435179894
    } else if step == 8 {
        6817835603
    } else if step == 9 {
        7223245205
    } else if step == 10 {
        7652761716
    } else if step == 11 {
        8107818609
    } else {
        4294967296
    };
    proof {
        lemma2_to64();
    }
    if octave >= 32 {
        proof {
            lemma_pow2_grows(32, octave as nat);
            assert(base * pow2(octave as nat) >= 0x1_0000_0000_0000_0000) by (nonlinear_arith)
                requires
                    base >= 0x1_0000_0000,
                    pow2(octave as nat) >= 0x1_0000_0000,
            ;
        }
        u64::MAX
    } else if octave >= 0 {
        let mut rate: u128 = base as u128;
        let mut doubled: i64 = 0;
        while doubled < octave
            invariant
                0 <= doubled <= octave < 32,
                rate == base * pow2(doubled as nat),
                base < 0x2_0000_0000,
                pow2(doubled as nat) <= pow2(31),
                pow2(31) == 0x8000_0000,
            decreases octave - doubled,
        {
            proof {
                lemma_pow2_unfold((doubled + 1) as nat);
                lemma_pow2_grows((doubled + 1) as nat, 31);
                assert(base * pow2(doubled as nat) <= 0x2_0000_0000 * 0x8000_0000)
                    by (nonlinear_arith)
                    requires
                        base < 0x2_0000_0000,
                        pow2(doubled as nat) <= 0x8000_0000,
                ;
                assert(base * (2 * pow2(doubled as nat)) == 2 * (base * pow2(doubled as nat)))
                    by (nonlinear_arith);
            }
            rate = rate * 2;
            doubled = doubled + 1;
        }
        if rate > 0xffff_ffff_ffff_ffffu128 {
            u64::MAX
        } else {
            rate as u64
        }
    } else if octave < -33 {
        proof {
            lemma_pow2_grows(33, (-octave) as nat);
            lemma_pow2_unfold(33);
            vstd::arithmetic::div_mod::lemma_basic_div(
                base as int,
                pow2((-octave) as nat) as int,
            );
            assert(pow2(33) == 0x2_0000_0000) by {
                lemma_pow2_unfold(33);
            }
        }
        0
    } else {
        let mut rate: u64 = base;
        let mut halved: i64 = 0;
        assert(pow2(0) == 1);
        assert((base as int) / (pow2(halved as nat) as int) == base) by (nonlinear_arith)
            requires
                pow2(halved as nat) == 1,
        ;
        while halved < -octave
            invariant
                0 <= halved <= -octave <= 33,
                rate == (base as int) / (pow2(halved as nat) as int),
            decreases -octave - halved,
        {
            proof {
                lemma_pow2_unfold((halved + 1) as nat);
                vstd::arithmetic::power2::lemma_pow2_pos(halved as nat);
                vstd::arithmetic::div_mod::lemma_div_denominator(
                    base as int,
                    pow2(halved as nat) as int,
                    2,
                );
                assert(pow2(halved as nat) * 2 == 2 * pow2(halved as nat));
            }
            rate = rate / 2;
            halved = halved + 1;
        }
        rate
    }
}

/// Powers of two grow with the exponent.
proof fn lemma_pow2_grows(a: nat, b: nat)
    requires
        a <= b,
    ensures
        pow2(a) <= pow2(b),
{
    if a < b {
        vstd::arithmetic::power2::lemma_pow2_strictly_increases(a, b);
    }
}

/// The name of a pitch class: 0 is C, 1 is C#, and so on up to 11, which is
/// B. Sharps are written with `#`.
pub open spec fn note_name(pitch_class: int) -> Seq<char> {
    if pitch_class == 0 {
        "C"@
    } else if pitch_class == 1 {
        "C#"@
    } else if pitch_class == 2 {
        "D"@
    } else if pitch_class == 3 {
        "D#"@
    } else if pitch_class == 4 {
        "E"@
    } else if pitch_class == 5 {
        "F"@
    } else if pitch_class == 6 {
        "F#"@
    } else if pitch_class == 7 {
        "G"@
    } else if pitch_class == 8 {
        "G#"@
    } else if pitch_class == 9 {
        "A"@
    } else if pitch_class == 10 {
        "A#"@
    } else {
        "B"@
    }
}

/// The name of the note that lies `semi` semitones above a C: the name of
/// the pitch class of `semi`, whatever the octave and the sign.
pub fn semitones_to_note(semi: i32) -> (name: String)
    ensures
        name@ == note_name((semi as int) % 12),
{
    let class: i32 = match semi.checked_rem_euclid(12) {
        Some(class) => class,
        None => 0,
    };
    let value: &str = if class == 0 {
        "C"
    } else if class == 1 {
        "C#"
    } else if class == 2 {
        "D"
    } else if class == 3 {
        "D#"
    } else if class == 4 {
        "E"
    } else if class == 5 {
        "F"
    } else if class == 6 {
        "F#"
    } else if class == 7 {
        "G"
    } else if class == 8 {
        "G#"
    } else if class == 9 {
        "A"
    } else if class == 10 {
        "A#"
    } else {
        "B"
    };
    value.to_owned()
}

/// What `str::to_uppercase` makes of a text.
pub uninterp spec fn uppercase_of(text: Seq<char>) -> Seq<char>;

/// Calls `str::to_uppercase`, which maps each character of the text to its
/// upper-case form as Unicode defines it. The result is a function of the
/// text alone; it is named, not spelled out.
#[verifier::external_body]
fn to_uppercase(text: &str) -> (upper: String)
    ensures
        upper@ == uppercase_of(text@),
{
    text.to_uppercase()
}

/// Whether a character parts the chunks of a file name.
pub open spec fn is_separator(c: char) -> bool {
    c == '_' || c == ' ' || c == '-' || c == '.'
}

/// The pitch class that an upper-case chunk of a file name stands for, if
/// it is the name of a note: a letter from A to G, alone, or followed by
/// `#` or `S` for a sharp, or by `B` for a flat. Only the notes that have a
/// key of their own between the letters count: there is no E#, and no Cb.
pub open spec fn note_of_chunk(upper: Seq<char>) -> Option<int> {
    if upper.len() == 1 {
        let c = upper[0];
        if c == 'C' {
            Some(0)
        } else if c == 'D' {
            Some(2)
        } else if c == 'E' {
            Some(4)
        } else if c == 'F' {
            Some(5)
        } else if c == 'G' {
            Some(7)
        } else if c == 'A' {
            Some(9)
        } else if c == 'B' {
            Some(11)
        } else {
            None
        }
    } else if upper.len() == 2 {
        let c = upper[0];
        let sharp = upper[1] == '#' || upper[1] == 'S';
        let flat = upper[1] == 'B';
        if (c == 'C' && sharp) || (c == 'D' && flat) {
            Some(1)
        } else if (c == 'D' && sharp) || (c == 'E' && flat) {
            Some(3)
        } else if (c == 'F' && sharp) || (c == 'G' && flat) {
            Some(6)
        } else if (c == 'G' && sharp) || (c == 'A' && flat) {
            Some(8)
        } else if (c == 'A' && sharp) || (c == 'B' && flat) {
            Some(10)
        } else {
            None
        }
    } else {
        None
    }
}

/// The pitch class that an upper-case chunk of a file name stands for.
pub fn note_from_chunk(upper: &str) -> (note: Option<i32>)
    ensures
        note is Some == note_of_chunk(upper@) is Some,
        note matches Some(n) ==> note_of_chunk(upper@) == Some(n as int),
{
    let len: usize = upper.unicode_len();
    if len == 1 {
        let c: char = upper.get_char(0);
        if c == 'C' {
            Some(0)
        } else if c == 'D' {
            Some(2)
        } else if c == 'E' {
            Some(4)
        } else if c == 'F' {
            Some(5)
        } else if c == 'G' {
            Some(7)
        } else if c == 'A' {
            Some(9)
        } else if c == 'B' {
            Some(11)
        } else {
            None
        }
    } else if len == 2 {
        let c: char = upper.get_char(0);
        let d: char = upper.get_char(1);
        let sharp: bool = d == '#' || d == 'S';
        let flat: bool = d == 'B';
        if (c == 'C' && sharp) || (c == 'D' && flat) {
            Some(1)
        } else if (c == 'D' && sharp) || (c == 'E' && flat) {
            Some(3)
        } else if (c == 'F' && sharp) || (c == 'G' && flat) {
            Some(6)
        } else if (c == 'G' && sharp) || (c == 'A' && flat) {
            Some(8)
        } else if (c == 'A' && sharp) || (c == 'B' && flat) {
            Some(10)
        } else {
            None
        }
    } else {
        None
    }
}

/// Where the last chunk of a name begins: behind its last separator, or at
/// 0 where it has none.
pub open spec fn last_chunk_start(name: Seq<char>) -> int
    decreases name.len(),
{
    if name.len() == 0 {
        0
    } else if is_separator(name.last()) {
        name.len() as int
    } else {
        last_chunk_start(name.drop_last())
    }
}

/// The root note that a file name states: the pitch class of the last of
/// its chunks that, in upper case, is the name of a note.
pub open spec fn root_note_in(name: Seq<char>) -> Option<int>
    decreases name.len(),
{
    let start = last_chunk_start(name);
    match note_of_chunk(uppercase_of(name.subrange(start, name.len() as int))) {
        Some(note) => Some(note),
        None => {
            if 0 < start <= name.len() {
                root_note_in(name.subrange(0, start - 1))
            } else {
                None
            }
        },
    }
}

/// The last chunk of a name begins inside the name, behind a separator or
/// at 0, and holds no separator.
pub proof fn lemma_last_chunk_start(name: Seq<char>)
    ensures
        0 <= last_chunk_start(name) <= name.len(),
        last_chunk_start(name) > 0 ==> is_separator(name[last_chunk_start(name) - 1]),
        forall|i: int| last_chunk_start(name) <= i < name.len() ==> !is_separator(name[i]),
    decreases name.len(),
{
    if name.len() > 0 && !is_separator(name.last()) {
        let shorter = name.drop_last();
        lemma_last_chunk_start(shorter);
        assert forall|i: int| last_chunk_start(name) <= i < name.len() implies !is_separator(
            name[i],
        ) by {
            if i < shorter.len() {
                assert(shorter[i] == name[i]);
            }
        }
    }
}

/// The root note that a file name states, if it states one. The name is
/// cut into chunks at every `_`, space, `-` and `.`; the chunks are read
/// from the last to the first, and the first of them that is the name of a
/// note, in any case of letters, decides.
pub fn get_root_note_from_filename(file_name: String) -> (note: Option<i32>)
    ensures
        note is Some == root_note_in(file_name@) is Some,
        note matches Some(n) ==> root_note_in(file_name@) == Some(n as int),
{
    let name: &str = file_name.as_str();
    let len: usize = name.unicode_len();
    let mut end: usize = len;
    assert(name@.subrange(0, end as int) =~= name@);
    loop
        invariant
            end <= len,
            len == name@.len(),
            name@ == file_name@,
            root_note_in(file_name@) == root_note_in(name@.subrange(0, end as int)),
        decreases end,
    {
        let ghost head = name@.subrange(0, end as int);
        let mut start: usize = end;
        let mut searching: bool = true;
        while searching && start > 0
            invariant
                start <= end <= len,
                len == name@.len(),
                head == name@.subrange(0, end as int),
                last_chunk_start(head) == last_chunk_start(name@.subrange(0, start as int)),
                !searching ==> start > 0 && is_separator(name@[start - 1]),
            decreases start + (if searching { 1int } else { 0int }),
        {
            let c: char = name.get_char(start - 1);
            if c == '_' || c == ' ' || c == '-' || c == '.' {
                searching = false;
            } else {
                assert(name@.subrange(0, start as int).drop_last() =~= name@.subrange(
                    0,
                    start - 1,
                ));
                assert(name@.subrange(0, start as int).last() == name@[start - 1]);
                start = start - 1;
            }
        }
        assert(last_chunk_start(head) == start) by {
            let cut = name@.subrange(0, start as int);
            if start > 0 {
                assert(cut.last() == name@[start - 1]);
            }
        }
        let chunk: &str = name.substring_char(start, end);
        assert(chunk@ =~= head.subrange(start as int, head.len() as int));
        let upper: String = to_uppercase(chunk);
        match note_from_chunk(upper.as_str()) {
            Some(value) => {
                return Some(value);
            },
            None => {},
        }
        if start == 0 {
            return None;
        }
        assert(head.subrange(0, start - 1) =~= name@.subrange(0, start - 1));
        end = start - 1;
    }
}

/// The first place from `from` on at which `name` stands among `names`, or
/// -1 where it stands at none.
pub open spec fn first_match(names: Seq<Seq<char>>, name: Seq<char>, from: int) -> int
    decreases names.len() - from,
{
    if from >= names.len() {
        -1
    } else if names[from] == name {
        from
    } else {
        first_match(names, name, from + 1)
    }
}

/// The texts of a list of names.
pub open spec fn name_views(names: Seq<String>) -> Seq<Seq<char>> {
    Seq::new(names.len(), |i: int| names[i]@)
}

/// The first place at which `current` stands among `entries`.
fn position_of(entries: &Vec<String>, current: &str) -> (place: Option<usize>)
    ensures
        place is Some <==> first_match(name_views(entries@), current@, 0) >= 0,
        place matches Some(i) ==> i == first_match(name_views(entries@), current@, 0) && i
            < entries@.len(),
{
    let wanted: String = current.to_owned();
    let mut index: usize = 0;
    while index < entries.len()
        invariant
            index <= entries@.len(),
            wanted@ == current@,
            first_match(name_views(entries@), current@, 0) == first_match(
                name_views(entries@),
                current@,
                index as int,
            ),
        decreases entries@.len() - index,
    {
        assert(name_views(entries@)[index as int] == entries@[index as int]@);
        if entries[index] == wanted {
            return Some(index);
        }
        index = index + 1;
    }
    None
}

/// The file that follows `current` in a directory, given the names of the
/// files of the directory in their order: the next name, or the first one
/// after the last. There is none where the directory does not hold
/// `current`.
pub fn get_next_file_in_directory_wrap(entries: &Vec<String>, current: &str) -> (next: Option<
    String,
>)
    ensures
        next is Some <==> first_match(name_views(entries@), current@, 0) >= 0,
        next matches Some(name) ==> name@ == entries@[(first_match(
            name_views(entries@),
            current@,
            0,
        ) + 1) % (entries@.len() as int)]@,
{
    match position_of(entries, current) {
        Some(current_index) => {
            let len: usize = entries.len();
            let next_index: usize = if current_index + 1 == len {
                0
            } else {
                current_index + 1
            };
            proof {
                if current_index + 1 == len {
                    vstd::arithmetic::div_mod::lemma_mod_self_0(len as int);
                } else {
                    vstd::arithmetic::div_mod::lemma_small_mod(
                        (current_index + 1) as nat,
                        len as nat,
                    );
                }
            }
            Some(entries[next_index].clone())
        },
        None => None,
    }
}

/// The file that precedes `current` in a directory, given the names of the
/// files of the directory in their order: the name before, or the last one
/// before the first. There is none where the directory does not hold
/// `current`.
pub fn get_previous_file_in_directory_wrap(entries: &Vec<String>, current: &str) -> (previous:
    Option<String>)
    ensures
        previous is Some <==> first_match(name_views(entries@), current@, 0) >= 0,
        previous matches Some(name) ==> name@ == entries@[(first_match(
            name_views(entries@),
            current@,
            0,
        ) + entries@.len() - 1) % (entries@.len() as int)]@,
{
    match position_of(entries, current) {
        Some(current_index) => {
            let len: usize = entries.len();
            let prev_index: usize = if current_index == 0 {
                len - 1
            } else {
                current_index - 1
            };
            proof {
                vstd::arithmetic::div_mod::lemma_small_mod(prev_index as nat, len as nat);
                if current_index > 0 {
                    vstd::arithmetic::div_mod::lemma_mod_add_multiples_vanish(
                        prev_index as int,
                        len as int,
                    );
                }
            }
            Some(entries[prev_index].clone())
        },
        None => None,
    }
}

/// Why a file cannot be taken as a sample.
#[derive(Clone, Copy, Debug, PartialEq, Eq, Structural)]
pub enum LoadError {
    /// The file is of a format other than WAV.
    UnsupportedFormat,
    /// The file holds integer samples of a width other than 16, 24 or 32
    /// bits.
    UnsupportedBitDepth(u16),
}

/// Whether a file with the given extension can be taken as a sample: only
/// `wav`, in lower case, is supported.
pub fn check_extension(extension: Option<&str>) -> (outcome: Result<(), LoadError>)
    ensures
        outcome is Ok <==> (extension matches Some(e) && e@ == "wav"@),
        outcome is Err ==> outcome == Err::<(), LoadError>(LoadError::UnsupportedFormat),
{
    match extension {
        Some(e) => {
            let given: String = e.to_owned();
            let wav: String = "wav".to_owned();
            if given == wav {
                Ok(())
            } else {
                Err(LoadError::UnsupportedFormat)
            }
        },
        None => Err(LoadError::UnsupportedFormat),
    }
}

/// The largest value of a signed integer sample of the given width, for
/// the widths that are supported.
pub open spec fn full_scale_of(bits_per_sample: u16) -> Option<int> {
    if bits_per_sample == 16 {
        Some(0x7fff)
    } else if bits_per_sample == 24 {
        Some(0x7f_ffff)
    } else if bits_per_sample == 32 {
        Some(0x7fff_ffff)
    } else {
        None
    }
}

/// An integer sample as a level: the sample over the largest value of its
/// width, rounded down, so that full scale is `ONE`.
pub open spec fn normalized(sample: int, full_scale: int) -> int {
    share(ONE as int, sample, full_scale)
}

/// The largest value of a signed integer sample of the given width.
pub fn full_scale(bits_per_sample: u16) -> (scale: Result<i32, LoadError>)
    ensures
        match full_scale_of(bits_per_sample) {
            Some(s) => scale == Ok::<i32, LoadError>(s as i32),
            None => scale == Err::<i32, LoadError>(LoadError::UnsupportedBitDepth(bits_per_sample)),
        },
{
    if bits_per_sample == 16 {
        Ok(0x7fff)
    } else if bits_per_sample == 24 {
        Ok(0x7f_ffff)
    } else if bits_per_sample == 32 {
        Ok(0x7fff_ffff)
    } else {
        Err(LoadError::UnsupportedBitDepth(bits_per_sample))
    }
}

/// The integer samples of a file as levels. Samples of a width that is not
/// supported are refused.
pub fn normalize_samples(samples: &Vec<i32>, bits_per_sample: u16) -> (outcome: Result<
    Vec<i64>,
    LoadError,
>)
    ensures
        match full_scale_of(bits_per_sample) {
            Some(scale) => outcome matches Ok(levels) && levels@.len() == samples@.len()
                && forall|i: int|
                0 <= i < samples@.len() ==> #[trigger] levels@[i] == normalized(
                    samples@[i] as int,
                    scale,
                ),
            None => outcome matches Err(e) && e == LoadError::UnsupportedBitDepth(bits_per_sample),
        },
{
    let scale: i32 = match full_scale(bits_per_sample) {
        Ok(scale) => scale,
        Err(e) => {
            return Err(e);
        },
    };
    let mut levels: Vec<i64> = Vec::new();
    let mut index: usize = 0;
    while index < samples.len()
        invariant
            index <= samples@.len(),
            levels@.len() == index,
            full_scale_of(bits_per_sample) == Some(scale as int),
            forall|i: int|
                0 <= i < index ==> #[trigger] levels@[i] == normalized(
                    samples@[i] as int,
                    scale as int,
                ),
        decreases samples@.len() - index,
    {
        let sample: i32 = samples[index];
        assert(-0x8000_0000_0000_0000 <= ONE * sample <= 0x8000_0000_0000_0000)
            by (nonlinear_arith)
            requires
                ONE == 0x1_0000_0000,
                -0x8000_0000 <= sample <= 0x7fff_ffff,
        ;
        proof {
            lemma_normalized_fits(sample as int, scale as int);
        }
        let level: i128 = floor_div((ONE as i128) * (sample as i128), scale as i128);
        levels.push(level as i64);
        index = index + 1;
    }
    Ok(levels)
}

/// A normalized sample is a level of moderate size.
proof fn lemma_normalized_fits(sample: int, scale: int)
    requires
        -0x8000_0000 <= sample <= 0x7fff_ffff,
        0x7fff <= scale,
    ensures
        -0x2_0000_0000_0000 <= normalized(sample, scale) <= 0x2_0000_0000_0000,
{
    let x = ONE * sample;
    assert(-0x8000_0000_0000_0000 <= x <= 0x8000_0000_0000_0000) by (nonlinear_arith)
        requires
            x == ONE * sample,
            ONE == 0x1_0000_0000,
            -0x8000_0000 <= sample <= 0x7fff_ffff,
    ;
    crate::fixed::lemma_floor_div_monotonic(x, 0x8000_0000_0000_0000, scale);
    crate::fixed::lemma_floor_div_monotonic(-0x8000_0000_0000_0000, x, scale);
    assert(0x8000_0000_0000_0000int / scale <= 0x2_0000_0000_0000) by (nonlinear_arith)
        requires
            0x7fff <= scale,
    ;
    assert((-0x8000_0000_0000_0000int) / scale >= -0x2_0000_0000_0000) by (nonlinear_arith)
        requires
            0x7fff <= scale,
    ;
}

/// The gain of a voice in the crossfade between two voices.
///
/// `t` is the time since the note began, `center` the middle of the blend
/// window and `width` its length, all in the same unit. The window runs from
/// `center - width / 2` to `center + width / 2`; the comparisons are made on
/// the doubled values, so that no half is ever rounded.
///
/// * A voice outside the crossfade always has gain `ONE`.
/// * A `Start` voice has gain `ONE` before the window, falls linearly across
///   it, and has gain 0 after it.
/// * An `End` voice has gain 0 before the window, rises linearly across it,
///   and has gain `ONE` after it.
/// * Inside a window of width 0 the ramp has no defined value; the gain is
///   then `ONE`, so that a degenerate window never silences a voice.
pub open spec fn blend_gain(group: BlendGroup, t: int, center: int, width: int) -> int {
    let window_start = 2 * center - width;
    let window_end = 2 * center + width;
    match group {
        BlendGroup::Off => ONE as int,
        BlendGroup::Start => {
            if 2 * t < window_start {
                ONE as int
            } else if 2 * t > window_end {
                0
            } else if width == 0 {
                ONE as int
            } else {
                share(ONE as int, window_end - 2 * t, 2 * width)
            }
        },
        BlendGroup::End => {
            if 2 * t < window_start {
                0
            } else if 2 * t > window_end {
                ONE as int
            } else if width == 0 {
                ONE as int
            } else {
                share(ONE as int, 2 * t - window_start, 2 * width)
            }
        },
    }
}

/// The gain of a voice with part `group` in the crossfade, at time
/// `current_time`, for a blend window of width `blend_transition` around
/// `blend_time`.
pub fn get_blend_value(
    group: BlendGroup,
    current_time: i64,
    blend_time: i64,
    blend_transition: i64,
) -> (gain: i64)
    ensures
        gain == blend_gain(
            group,
            current_time as int,
            blend_time as int,
            blend_transition as int,
        ),
        0 <= gain <= ONE,
{
    let now: i128 = 2 * (current_time as i128);
    let window_start: i128 = 2 * (blend_time as i128) - blend_transition as i128;
    let window_end: i128 = 2 * (blend_time as i128) + blend_transition as i128;
    let whole: i128 = 2 * (blend_transition as i128);
    match group {
        BlendGroup::Off => ONE,
        BlendGroup::Start => {
            if now < window_start {
                ONE
            } else if now > window_end {
                0
            } else if blend_transition == 0 {
                ONE
            } else {
                ramp(window_end - now, whole)
            }
        },
        BlendGroup::End => {
            if now < window_start {
                0
            } else if now > window_end {
                ONE
            } else if blend_transition == 0 {
                ONE
            } else {
                ramp(now - window_start, whole)
            }
        },
    }
}

/// The share `part / whole` on the scale from 0 to `ONE`.
fn ramp(part: i128, whole: i128) -> (level: i64)
    requires
        0 <= part <= whole,
        0 < whole <= 0x1_0000_0000_0000_0000,
    ensures
        level == share(ONE as int, part as int, whole as int),
        0 <= level <= ONE,
{
    proof {
        lemma_share_bounds(ONE as int, part as int, whole as int);
    }
    assert(0 <= ONE * part <= 0x1_0000_0000_0000_0000_0000_0000) by (nonlinear_arith)
        requires
            0 <= part <= 0x1_0000_0000_0000_0000,
            ONE == 0x1_0000_0000,
    ;
    floor_div((ONE as i128) * part, whole) as i64
}

/// Before its blend window a `Start` voice has gain exactly `ONE`, the
/// first instant of the window included.
pub proof fn lemma_start_voice_full_before_window(t: int, center: int, width: int)
    requires
        width >= 0,
        2 * t <= 2 * center - width,
    ensures
        blend_gain(BlendGroup::Start, t, center, width) == ONE,
{
    if width > 0 && 2 * t == 2 * center - width {
        lemma_share_bounds(ONE as int, 2 * width, 2 * width);
    }
}

/// After its blend window a `Start` voice has gain exactly 0; for a window
/// that has a width, the last instant of the window is included.
pub proof fn lemma_start_voice_silent_after_window(t: int, center: int, width: int)
    requires
        width >= 0,
        2 * t >= 2 * center + width,
        width > 0 || 2 * t > 2 * center + width,
    ensures
        blend_gain(BlendGroup::Start, t, center, width) == 0,
{
    if 2 * t == 2 * center + width {
        lemma_share_bounds(ONE as int, 0, 2 * width);
    }
}

/// Across a blend window that has a width, the gain of a `Start` voice is
/// the part of the window that is still to come, on the scale from 0 to
/// `ONE`: a straight line from `ONE` down to 0.
pub proof fn lemma_start_voice_linear_in_window(t: int, center: int, width: int)
    requires
        width > 0,
        2 * center - width <= 2 * t <= 2 * center + width,
    ensures
        blend_gain(BlendGroup::Start, t, center, width) == share(
            ONE as int,
            2 * center + width - 2 * t,
            2 * width,
        ),
{
}

/// An `End` voice is the mirror image of a `Start` voice: its gain at `t`
/// is the gain of the `Start` voice at the instant that lies as far on the
/// other side of the centre.
pub proof fn lemma_end_voice_mirrors_start_voice(t: int, center: int, width: int)
    requires
        width >= 0,
    ensures
        blend_gain(BlendGroup::End, t, center, width) == blend_gain(
            BlendGroup::Start,
            2 * center - t,
            center,
            width,
        ),
{
}

/// A voice outside the crossfade has gain `ONE` at all times.
pub proof fn lemma_unblended_voice_keeps_full_gain(t: int, center: int, width: int)
    ensures
        blend_gain(BlendGroup::Off, t, center, width) == ONE,
{
}

/// A blend window of width 0 gives a gain of 0 or `ONE`, never anything
/// undefined; at the centre itself it gives `ONE`.
pub proof fn lemma_window_without_width(group: BlendGroup, t: int, center: int)
    ensures
        blend_gain(group, t, center, 0) == 0 || blend_gain(group, t, center, 0) == ONE,
        blend_gain(group, center, center, 0) == ONE,
{
}

/// The gain of the crossfade always lies between 0 and `ONE`.
pub proof fn lemma_blend_gain_in_range(group: BlendGroup, t: int, center: int, width: int)
    ensures
        0 <= blend_gain(group, t, center, width) <= ONE,
{
    let window_start = 2 * center - width;
    let window_end = 2 * center + width;
    if window_start <= 2 * t <= window_end && width != 0 {
        lemma_share_bounds(ONE as int, window_end - 2 * t, 2 * width);
        lemma_share_bounds(ONE as int, 2 * t - window_start, 2 * width);
    }
}

} // verus!
