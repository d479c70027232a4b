//! What a display of a sample needs to know: how many frames a stretch of
//! bars holds, the points of a waveform, and a waveform thinned out to as
//! many points as a display has room for.
//!
//! A point is a pair of an abscissa and an ordinate, both in fixed point.

use vstd::prelude::*;
use crate::fixed::{floor_div, lemma_floor_div_exact, lemma_floor_div_monotonic, share, ONE, MICROS_PER_SECOND};
use crate::plugin::DEFAULT_BPM;

verus! {

/// The number of frames that `bars` bars last at `sample_rate` frames per
/// second and `bpm` beats per minute, a bar lasting sixty beats: rounded
/// down, not below zero, and saturated. A tempo that is not above zero
/// counts as the default tempo. `bars` and `bpm` are levels.
pub open spec fn displayed_frames(bars: int, sample_rate: int, bpm: int) -> int {
    let tempo = if bpm <= 0 {
        DEFAULT_BPM * ONE
    } else {
        bpm
    };
    let exact = (bars * 60 * sample_rate) / tempo;
    if exact < 0 {
        0
    } else if exact > usize::MAX {
        usize::MAX as int
    } else {
        exact
    }
}

/// The number of frames that a display of `bars` bars shows.
pub fn get_num_displayed_frames(bars: i64, sr: u32, bpm: i64) -> (frames: usize)
    ensures
        frames == displayed_frames(bars as int, sr as int, bpm as int),
{
    let tempo: i128 = if bpm <= 0 {
        (DEFAULT_BPM as i128) * 0x1_0000_0000i128
    } else {
        bpm as i128
    };
    assert(-0x8000_0000_0000_0000_0000_0000_0000 < bars * 60 * sr
        < 0x8000_0000_0000_0000_0000_0000_0000) by (nonlinear_arith)
        requires
            -0x8000_0000_0000_0000 <= bars < 0x8000_0000_0000_0000,
            0 <= sr < 0x1_0000_0000,
    ;
    let exact: i128 = floor_div((bars as i128) * 60 * (sr as i128), tempo);
    if exact < 0 {
        0
    } else if exact > usize::MAX as i128 {
        usize::MAX
    } else {
        exact as usize
    }
}

/// The whole frames of an offset of `micros` microseconds at `sample_rate`
/// frames per second, rounded towards zero and limited to the range of
/// `i32`.
pub open spec fn offset_frames(micros: int, sample_rate: int) -> int {
    let length = micros * sample_rate;
    let whole = if length >= 0 {
        length / (MICROS_PER_SECOND as int)
    } else {
        -((-length) / (MICROS_PER_SECOND as int))
    };
    if whole < i32::MIN {
        i32::MIN as int
    } else if whole > i32::MAX {
        i32::MAX as int
    } else {
        whole
    }
}

/// Point `i` of a waveform of `num_frames` points.
///
/// Its abscissa runs from 0 at the first point to `ONE` at the last; a
/// waveform of a single point has it at 0. Its ordinate is the sample of
/// the channel in the frame that lies `offset` frames behind point `i`, or
/// 0 where the data has no such frame.
pub open spec fn waveform_point(
    data: Seq<i64>,
    num_frames: int,
    num_channels: int,
    channel_index: int,
    offset: int,
    i: int,
) -> [i64; 2] {
    let frame = i + offset;
    let abscissa = if num_frames <= 1 {
        0
    } else {
        share(ONE as int, i, num_frames - 1)
    };
    let ordinate = if 0 <= frame < data.len() / (num_channels as nat) {
        data[frame * num_channels + channel_index]
    } else {
        0
    };
    [abscissa as i64, ordinate]
}

/// The points of the waveform of one channel of a sample: `num_frames`
/// points from `offset_seconds` (in microseconds) into the sample on, one
/// for each frame.
pub fn get_waveform(
    data: &Vec<i64>,
    num_frames: usize,
    num_channels: usize,
    channel_index: usize,
    offset_seconds: i64,
    sample_rate: u32,
) -> (points: Vec<[i64; 2]>)
    requires
        num_channels > 0,
        channel_index < num_channels,
    ensures
        points@.len() == num_frames,
        forall|i: int|
            0 <= i < num_frames ==> #[trigger] points@[i] == waveform_point(
                data@,
                num_frames as int,
                num_channels as int,
                channel_index as int,
                offset_frames(offset_seconds as int, sample_rate as int),
                i,
            ),
{
    assert(-0x8000_0000_0000_0000_0000_0000 < offset_seconds * sample_rate
        < 0x8000_0000_0000_0000_0000_0000) by (nonlinear_arith)
        requires
            -0x8000_0000_0000_0000 <= offset_seconds < 0x8000_0000_0000_0000,
            0 <= sample_rate < 0x1_0000_0000,
    ;
    let length: i128 = (offset_seconds as i128) * (sample_rate as i128);
    let whole: i128 = if length >= 0 {
        length / 1_000_000i128
    } else {
        -((-length) / 1_000_000i128)
    };
    let offset: i128 = if whole < -0x8000_0000i128 {
        -0x8000_0000i128
    } else if whole > 0x7fff_ffffi128 {
        0x7fff_ffffi128
    } else {
        whole
    };
    let len: usize = data.len();
    let total_frames_in_data: usize = len / num_channels;
    let mut result: Vec<[i64; 2]> = Vec::new();
    let mut i: usize = 0;
    while i < num_frames
        invariant
            i <= num_frames,
            num_channels > 0,
            channel_index < num_channels,
            offset == offset_frames(offset_seconds as int, sample_rate as int),
            len == data@.len(),
            total_frames_in_data == data@.len() / (num_channels as nat),
            result@.len() == i,
            forall|k: int|
                0 <= k < i ==> #[trigger] result@[k] == waveform_point(
                    data@,
                    num_frames as int,
                    num_channels as int,
                    channel_index as int,
                    offset as int,
                    k,
                ),
        decreases num_frames - i,
    {
        let frame_index: i128 = i as i128 + offset;
        let sample_value: i64 = if frame_index >= 0 && frame_index < total_frames_in_data as i128 {
            proof {
                lemma_sample_fits(
                    len as nat,
                    num_channels as nat,
                    frame_index as nat,
                    channel_index as nat,
                );
            }
            assert(frame_index * num_channels + channel_index < len);
            data[frame_index as usize * num_channels + channel_index]
        } else {
            0
        };
        let x_norm: i64 = if num_frames <= 1 {
            0
        } else {
            proof {
                crate::fixed::lemma_share_bounds(ONE as int, i as int, num_frames - 1);
            }
            assert(0 <= ONE * i <= 0x1_0000_0000_0000_0000_0000_0000) by (nonlinear_arith)
                requires
                    ONE == 0x1_0000_0000,
                    0 <= i <= 0xffff_ffff_ffff_ffff,
            ;
            floor_div((ONE as i128) * (i as i128), (num_frames - 1) as i128) as i64
        };
        result.push([x_norm, sample_value]);
        i = i + 1;
    }
    result
}

/// Every sample of a whole frame lies inside the data.
proof fn lemma_sample_fits(len: nat, channels: nat, frame: nat, channel: nat)
    requires
        channels > 0,
        channel < channels,
        frame < len / channels,
    ensures
        frame * channels + channel < len,
        frame * channels >= 0,
{
    let frames = len / channels;
    vstd::arithmetic::div_mod::lemma_fundamental_div_mod(len as int, channels as int);
    vstd::arithmetic::div_mod::lemma_mod_bound(len as int, channels as int);
    assert((frame + 1) * channels <= frames * channels) by (nonlinear_arith)
        requires
            frame + 1 <= frames,
            channels > 0,
    ;
    assert((frame + 1) * channels == frame * channels + channels) by (nonlinear_arith);
    assert(channels * frames == frames * channels) by (nonlinear_arith);
    assert(frame * channels >= 0) by (nonlinear_arith)
        requires
            frame >= 0,
            channels >= 0,
    ;
}

/// Where bucket `i + 1` of a waveform of `len` points begins, when the
/// points between the first and the last are shared out evenly among
/// `target - 2` buckets: bucket `i` holds the points from `bucket_edge(i -
/// 1)` up to, not including, `bucket_edge(i)`.
pub open spec fn bucket_edge(i: int, len: int, target: int) -> int {
    (i * (len - 2)) / (target - 2) + 1
}

/// The sum of the coordinates on one axis of the points from `from` up to
/// `to`.
pub open spec fn coordinate_sum(data: Seq<[i64; 2]>, axis: int, from: int, to: int) -> int
    decreases to - from,
{
    if from >= to {
        0
    } else {
        coordinate_sum(data, axis, from, to - 1) + data[to - 1][axis]
    }
}

/// The mean of the coordinates on one axis of the points from `from` up to
/// `to`, rounded down.
pub open spec fn coordinate_mean(data: Seq<[i64; 2]>, axis: int, from: int, to: int) -> int {
    coordinate_sum(data, axis, from, to) / (to - from)
}

/// Twice the area of the triangle between the points `a` and `p` and the
/// point `(mean_x, mean_y)`.
pub open spec fn triangle_area(a: [i64; 2], mean_x: int, mean_y: int, p: [i64; 2]) -> int {
    let cross = (a[0] - mean_x) * (p[1] - a[1]) - (a[0] - p[0]) * (mean_y - a[1]);
    if cross < 0 {
        -cross
    } else {
        cross
    }
}

/// The point among those from `from` up to `to` that spans the largest
/// triangle with `a` and the mean point; of several such points, the first.
pub open spec fn largest_in(
    data: Seq<[i64; 2]>,
    a: [i64; 2],
    mean_x: int,
    mean_y: int,
    from: int,
    to: int,
) -> int
    decreases to - from,
{
    if to <= from + 1 {
        from
    } else {
        let before = largest_in(data, a, mean_x, mean_y, from, to - 1);
        if triangle_area(a, mean_x, mean_y, data[to - 1]) > triangle_area(
            a,
            mean_x,
            mean_y,
            data[before],
        ) {
            to - 1
        } else {
            before
        }
    }
}

/// The index of the point that stands at place `i` of a waveform thinned
/// out to `target` points.
///
/// The first and the last point stay. For each bucket in between, the point
/// is kept that spans the largest triangle with the point kept from the
/// bucket before and the mean of the points of the bucket after (for the
/// last bucket, the last point).
pub open spec fn selected(data: Seq<[i64; 2]>, target: int, i: int) -> int
    decreases i,
{
    let len = data.len() as int;
    if i <= 0 {
        0
    } else if i >= target - 1 {
        len - 1
    } else {
        let from = bucket_edge(i - 1, len, target);
        let to = bucket_edge(i, len, target);
        let next = if bucket_edge(i + 1, len, target) < len {
            bucket_edge(i + 1, len, target)
        } else {
            len
        };
        largest_in(
            data,
            data[selected(data, target, i - 1)],
            coordinate_mean(data, 0, to, next),
            coordinate_mean(data, 1, to, next),
            from,
            to,
        )
    }
}

/// A waveform thinned out to `target` points. One that has no more points
/// than that, or a target of fewer than three points, leaves the waveform
/// as it is.
pub open spec fn downsampled(data: Seq<[i64; 2]>, target: int) -> Seq<[i64; 2]> {
    if data.len() <= target || target < 3 {
        data
    } else {
        Seq::new(target as nat, |i: int| data[selected(data, target, i)])
    }
}

/// The buckets of a waveform that is to be thinned out lie one behind the
/// other between the first point and the last, and none is empty.
pub proof fn lemma_bucket_edges(i: int, len: int, target: int)
    requires
        3 <= target < len,
        1 <= i <= target - 2,
    ensures
        1 <= bucket_edge(i - 1, len, target) < bucket_edge(i, len, target) <= len - 1,
        bucket_edge(i, len, target) < bucket_edge(i + 1, len, target),
        bucket_edge(0, len, target) == 1,
        bucket_edge(target - 2, len, target) == len - 1,
{
    let d = target - 2;
    let w = len - 2;
    assert((i - 1) * w >= 0 && (i - 1) * w + d <= i * w && i * w + d <= (i + 1) * w && i * w <= d
        * w && 0 * w == 0) by (nonlinear_arith)
        requires
            1 <= i <= d,
            d < w,
    ;
    lemma_floor_div_monotonic(0, (i - 1) * w, d);
    lemma_floor_div_monotonic((i - 1) * w + d, i * w, d);
    lemma_floor_div_monotonic(i * w + d, (i + 1) * w, d);
    lemma_floor_div_monotonic(i * w, d * w, d);
    vstd::arithmetic::div_mod::lemma_div_plus_one((i - 1) * w, d);
    vstd::arithmetic::div_mod::lemma_div_plus_one(i * w, d);
    lemma_floor_div_exact(w, d);
    assert(d * w == w * d) by (nonlinear_arith);
    assert(0int / d == 0) by (nonlinear_arith)
        requires
            d > 0,
    ;
}

/// The point that `largest_in` picks lies in the range, none in the range
/// spans a larger triangle, and none before it spans one as large.
pub proof fn lemma_largest_in(
    data: Seq<[i64; 2]>,
    a: [i64; 2],
    mean_x: int,
    mean_y: int,
    from: int,
    to: int,
)
    requires
        from < to,
    ensures
        from <= largest_in(data, a, mean_x, mean_y, from, to) < to,
        forall|j: int|
            from <= j < to ==> triangle_area(a, mean_x, mean_y, #[trigger] data[j])
                <= triangle_area(
                a,
                mean_x,
                mean_y,
                data[largest_in(data, a, mean_x, mean_y, from, to)],
            ),
        forall|j: int|
            from <= j < largest_in(data, a, mean_x, mean_y, from, to) ==> triangle_area(
                a,
                mean_x,
                mean_y,
                #[trigger] data[j],
            ) < triangle_area(
                a,
                mean_x,
                mean_y,
                data[largest_in(data, a, mean_x, mean_y, from, to)],
            ),
    decreases to - from,
{
    if to > from + 1 {
        lemma_largest_in(data, a, mean_x, mean_y, from, to - 1);
    }
}

/// Each point of a thinned-out waveform comes from its own bucket: the
/// kept indices rise from the first point to the last.
pub proof fn lemma_selected_in_bucket(data: Seq<[i64; 2]>, target: int, i: int)
    requires
        3 <= target < data.len(),
        1 <= i <= target - 2,
    ensures
        bucket_edge(i - 1, data.len() as int, target) <= selected(data, target, i) < bucket_edge(
            i,
            data.len() as int,
            target,
        ),
        0 < selected(data, target, i) < data.len() - 1,
{
    let len = data.len() as int;
    lemma_bucket_edges(i, len, target);
    let to = bucket_edge(i, len, target);
    let next = if bucket_edge(i + 1, len, target) < len {
        bucket_edge(i + 1, len, target)
    } else {
        len
    };
    lemma_largest_in(
        data,
        data[selected(data, target, i - 1)],
        coordinate_mean(data, 0, to, next),
        coordinate_mean(data, 1, to, next),
        bucket_edge(i - 1, len, target),
        to,
    );
}

/// A number of at most 129 bits: `low`, and 2^128 on top where `carry` is
/// set.
pub open spec fn wide(carry: bool, low: u128) -> int {
    low + if carry {
        0x1_0000_0000_0000_0000_0000_0000_0000_0000int
    } else {
        0int
    }
}

/// The product of two differences of coordinates, as a sign and a
/// magnitude.
fn signed_product(a: i64, b: i64, c: i64, d: i64) -> (r: (bool, u128))
    ensures
        (a - b) * (c - d) == if r.0 {
            -(r.1 as int)
        } else {
            r.1 as int
        },
        r.0 ==> r.1 > 0,
{
    let first: i128 = a as i128 - b as i128;
    let second: i128 = c as i128 - d as i128;
    let m1: u128 = if first < 0 {
        (-first) as u128
    } else {
        first as u128
    };
    let m2: u128 = if second < 0 {
        (-second) as u128
    } else {
        second as u128
    };
    assert(m1 * m2 <= 0xffff_ffff_ffff_fffe_0000_0000_0000_0001) by (nonlinear_arith)
        requires
            m1 <= 0xffff_ffff_ffff_ffff,
            m2 <= 0xffff_ffff_ffff_ffff,
    ;
    let magnitude: u128 = m1 * m2;
    let negative: bool = ((first < 0) != (second < 0)) && magnitude != 0;
    assert((a - b) * (c - d) == if negative {
        -(magnitude as int)
    } else {
        magnitude as int
    }) by (nonlinear_arith)
        requires
            first == a - b,
            second == c - d,
            m1 == (if first < 0 {
                -first
            } else {
                first as int
            }),
            m2 == (if second < 0 {
                -second
            } else {
                second as int
            }),
            magnitude == m1 * m2,
            negative == (((first < 0) != (second < 0)) && magnitude != 0),
    ;
    (negative, magnitude)
}

/// Twice the area of the triangle between `a`, `p` and the mean point.
fn area_of(a: [i64; 2], mean_x: i64, mean_y: i64, p: [i64; 2]) -> (r: (bool, u128))
    ensures
        wide(r.0, r.1) == triangle_area(a, mean_x as int, mean_y as int, p),
{
    let (n1, m1) = signed_product(a[0], mean_x, p[1], a[1]);
    let (n2, m2) = signed_product(a[0], p[0], mean_y, a[1]);
    if n1 == n2 {
        if m1 >= m2 {
            (false, m1 - m2)
        } else {
            (false, m2 - m1)
        }
    } else {
        match m1.checked_add(m2) {
            Some(sum) => (false, sum),
            None => (true, m1.wrapping_add(m2)),
        }
    }
}

/// The means of both coordinates of the points from `from` up to `to`.
fn means(data: &Vec<[i64; 2]>, from: usize, to: usize) -> (r: (i64, i64))
    requires
        from < to <= data@.len(),
    ensures
        r.0 == coordinate_mean(data@, 0, from as int, to as int),
        r.1 == coordinate_mean(data@, 1, from as int, to as int),
{
    let mut sum_x: i128 = 0;
    let mut sum_y: i128 = 0;
    let mut index: usize = from;
    while index < to
        invariant
            from <= index <= to <= data@.len(),
            sum_x == coordinate_sum(data@, 0, from as int, index as int),
            sum_y == coordinate_sum(data@, 1, from as int, index as int),
            -0x8000_0000_0000_0000 * (index - from) <= sum_x <= 0x7fff_ffff_ffff_ffff * (index
                - from),
            -0x8000_0000_0000_0000 * (index - from) <= sum_y <= 0x7fff_ffff_ffff_ffff * (index
                - from),
        decreases to - index,
    {
        let point: [i64; 2] = data[index];
        assert(-0x8000_0000_0000_0000 * (index - from) >= -0x7fff_ffff_ffff_ffff_8000_0000_0000_0000
            && 0x7fff_ffff_ffff_ffff * (index - from) <= 0x7fff_ffff_ffff_fffe_8000_0000_0000_0001)
            by (nonlinear_arith)
            requires
                0 <= index - from <= 0xffff_ffff_ffff_ffff,
        ;
        sum_x = sum_x + point[0] as i128;
        sum_y = sum_y + point[1] as i128;
        index = index + 1;
    }
    let count: i128 = (to - from) as i128;
    proof {
        let n = (to - from) as int;
        lemma_floor_div_monotonic(-0x8000_0000_0000_0000 * n, sum_x as int, n);
        lemma_floor_div_monotonic(sum_x as int, 0x7fff_ffff_ffff_ffff * n, n);
        lemma_floor_div_monotonic(-0x8000_0000_0000_0000 * n, sum_y as int, n);
        lemma_floor_div_monotonic(sum_y as int, 0x7fff_ffff_ffff_ffff * n, n);
        lemma_floor_div_exact(-0x8000_0000_0000_0000, n);
        lemma_floor_div_exact(0x7fff_ffff_ffff_ffff, n);
    }
    (floor_div(sum_x, count) as i64, floor_div(sum_y, count) as i64)
}

/// The point among those from `from` up to `to` that spans the largest
/// triangle with `a` and the mean point.
fn largest(
    data: &Vec<[i64; 2]>,
    a: [i64; 2],
    mean_x: i64,
    mean_y: i64,
    from: usize,
    to: usize,
) -> (best: usize)
    requires
        from < to <= data@.len(),
    ensures
        best == largest_in(data@, a, mean_x as int, mean_y as int, from as int, to as int),
        from <= best < to,
{
    let mut best: usize = from;
    let mut best_area: (bool, u128) = area_of(a, mean_x, mean_y, data[from]);
    let mut index: usize = from + 1;
    while index < to
        invariant
            from < index <= to <= data@.len(),
            from <= best < index,
            best == largest_in(data@, a, mean_x as int, mean_y as int, from as int, index as int),
            wide(best_area.0, best_area.1) == triangle_area(
                a,
                mean_x as int,
                mean_y as int,
                data@[best as int],
            ),
        decreases to - index,
    {
        let area: (bool, u128) = area_of(a, mean_x, mean_y, data[index]);
        let larger: bool = (area.0 && !best_area.0) || (area.0 == best_area.0 && area.1
            > best_area.1);
        if larger {
            best = index;
            best_area = area;
        }
        index = index + 1;
    }
    best
}

/// An edge between two buckets.
fn edge(i: usize, len: usize, target: usize) -> (e: usize)
    requires
        3 <= target < len,
        i <= target - 1,
    ensures
        e == if bucket_edge(i as int, len as int, target as int) < len {
            bucket_edge(i as int, len as int, target as int)
        } else {
            len as int
        },
{
    assert(0 <= i * (len - 2) <= 0xffff_ffff_ffff_ffff * 0xffff_ffff_ffff_ffff) by (nonlinear_arith)
        requires
            0 <= i <= 0xffff_ffff_ffff_ffff,
            0 <= len - 2 <= 0xffff_ffff_ffff_ffff,
    ;
    let exact: u128 = (i as u128) * ((len - 2) as u128) / ((target - 2) as u128) + 1;
    if exact < len as u128 {
        exact as usize
    } else {
        len
    }
}

/// Thins a waveform out to `target_points` points that keep its shape: the
/// first and the last point, and from each bucket in between the point that
/// stands out most against its neighbourhood.
pub fn downsample_lttb(data: &Vec<[i64; 2]>, target_points: usize) -> (result: Vec<[i64; 2]>)
    ensures
        result@ == downsampled(data@, target_points as int),
{
    let len: usize = data.len();
    let mut result: Vec<[i64; 2]> = Vec::new();
    if len <= target_points || target_points < 3 {
        let mut index: usize = 0;
        while index < len
            invariant
                index <= len,
                len == data@.len(),
                result@ =~= data@.subrange(0, index as int),
            decreases len - index,
        {
            result.push(data[index]);
            index = index + 1;
        }
        assert(result@ =~= data@);
        return result;
    }
    result.push(data[0]);
    let mut a: usize = 0;
    let mut i: usize = 1;
    while i < target_points - 1
        invariant
            3 <= target_points < len,
            len == data@.len(),
            1 <= i <= target_points - 1,
            a < len,
            a == selected(data@, target_points as int, i - 1),
            result@.len() == i,
            forall|k: int|
                0 <= k < i ==> #[trigger] result@[k] == data@[selected(
                    data@,
                    target_points as int,
                    k,
                )],
        decreases target_points - i,
    {
        proof {
            lemma_bucket_edges(i as int, len as int, target_points as int);
            lemma_selected_in_bucket(data@, target_points as int, i as int);
        }
        let range_start: usize = edge(i - 1, len, target_points);
        let range_end: usize = edge(i, len, target_points);
        let avg_range_end: usize = edge(i + 1, len, target_points);
        let (avg_x, avg_y) = means(data, range_end, avg_range_end);
        let point_a: [i64; 2] = data[a];
        let max_area_point: usize = largest(data, point_a, avg_x, avg_y, range_start, range_end);
        result.push(data[max_area_point]);
        a = max_area_point;
        i = i + 1;
    }
    result.push(data[len - 1]);
    assert(result@ =~= downsampled(data@, target_points as int));
    result
}

} // verus!
