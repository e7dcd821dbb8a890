use vstd::prelude::*;

use crate::config::Config;
use crate::structs::FrameData;

verus! {

/// The stride between the starts of consecutive analysis windows: half a
/// window, for 50% overlap.
pub open spec fn hop_of(buffer_size: usize) -> int {
    buffer_size as int / 2
}

/// How many whole windows the analysis emits over `sample_count` samples:
/// `(sample_count - buffer_size) / hop`, and none at all when fewer
/// samples than one window exist.
pub open spec fn frame_count_of(sample_count: usize, buffer_size: usize) -> int {
    if sample_count < buffer_size {
        0
    } else {
        (sample_count - buffer_size) as int / hop_of(buffer_size)
    }
}

/// How many transform bins each band covers: the non-negative-frequency
/// half of the transform, divided evenly among the bands.
pub open spec fn band_width_of(buffer_size: usize, bands: usize) -> int {
    (buffer_size as int / 2) / bands as int
}

/// The first bin of band `k`.
pub open spec fn band_lo_of(buffer_size: usize, bands: usize, k: int) -> int {
    k * band_width_of(buffer_size, bands)
}

/// The bin just past band `k`: one width further — except for the final
/// band, whose upper bound is the end of the non-negative-frequency half
/// itself, so that the remainder bins of the integer division fall into
/// the last band rather than into none.
pub open spec fn band_hi_of(buffer_size: usize, bands: usize, k: int) -> int {
    if k == bands as int - 1 {
        buffer_size as int / 2
    } else {
        (k + 1) * band_width_of(buffer_size, bands)
    }
}

/// Where frame `frame_index` sits in the original audio, in microseconds:
/// the start of the extracted range plus the frame's offset within it.
pub open spec fn frame_time_us_of(
    start_ms: u64,
    frame_index: int,
    buffer_size: usize,
    sample_rate: u32,
) -> int {
    start_ms as int * 1000 + (frame_index * hop_of(buffer_size) * 1000000) / sample_rate as int
}

/// The number of frames that analyzing `sample_count` samples emits.
pub fn frame_count(sample_count: usize, buffer_size: usize) -> (n: usize)
    requires
        buffer_size >= 2,
    ensures
        n == frame_count_of(sample_count, buffer_size),
{
    if sample_count < buffer_size {
        0
    } else {
        (sample_count - buffer_size) / (buffer_size / 2)
    }
}

/// The sample range of every analysis window, in frame order: frame `k`
/// covers `[k * hop, k * hop + buffer_size)`, and every window ends
/// within the available samples.
pub fn frame_plan(sample_count: usize, buffer_size: usize) -> (r: Vec<(usize, usize)>)
    requires
        buffer_size >= 2,
    ensures
        r@.len() == frame_count_of(sample_count, buffer_size),
        forall|k: int|
            0 <= k < r@.len() ==> (#[trigger] r@[k]).0 == k * hop_of(buffer_size) && r@[k].1 == k
                * hop_of(buffer_size) + buffer_size && r@[k].1 <= sample_count,
        forall|k1: int, k2: int|
            0 <= k1 < k2 < r@.len() ==> (#[trigger] r@[k1]).0 < (#[trigger] r@[k2]).0,
{
    let hop: usize = buffer_size / 2;
    let n: usize = frame_count(sample_count, buffer_size);
    let mut r: Vec<(usize, usize)> = Vec::new();
    let mut i: usize = 0;
    while i < n
        invariant
            i <= n,
            buffer_size >= 2,
            hop == hop_of(buffer_size),
            n == frame_count_of(sample_count, buffer_size),
            r@.len() == i,
            forall|k: int|
                0 <= k < i ==> (#[trigger] r@[k]).0 == k * hop_of(buffer_size) && r@[k].1 == k
                    * hop_of(buffer_size) + buffer_size && r@[k].1 <= sample_count,
        decreases n - i,
    {
        proof {
            let len = sample_count as int;
            let big_n = buffer_size as int;
            let h = hop as int;
            let q = frame_count_of(sample_count, buffer_size);
            vstd::arithmetic::div_mod::lemma_remainder_lower(len - big_n, h);
            assert((len - big_n) / h * h <= len - big_n);
            vstd::arithmetic::mul::lemma_mul_inequality(i as int, q - 1, h);
            vstd::arithmetic::mul::lemma_mul_is_distributive_sub_other_way(h, q, 1);
            assert(i as int * h <= q * h - h);
            vstd::arithmetic::mul::lemma_mul_is_commutative(q, h);
            assert(i as int * h + big_n <= len);
        }
        let start: usize = i * hop;
        r.push((start, start + buffer_size));
        i = i + 1;
    }
    proof {
        assert forall|k1: int, k2: int|
            0 <= k1 < k2 < r@.len() implies (#[trigger] r@[k1]).0 < (#[trigger] r@[k2]).0 by {
            vstd::arithmetic::mul::lemma_mul_strict_inequality(k1, k2, hop as int);
        }
    }
    r
}

/// The bin range of every band, in band order: band `k` covers
/// `[k * width, (k + 1) * width)`, and the final band runs to the end of
/// the first half of the transform output, absorbing the bins the
/// integer division left over.
pub fn band_plan(buffer_size: usize, bands: usize) -> (r: Vec<(usize, usize)>)
    requires
        bands >= 1,
    ensures
        r@.len() == bands,
        forall|k: int|
            0 <= k < r@.len() ==> (#[trigger] r@[k]).0 == band_lo_of(buffer_size, bands, k)
                && r@[k].1 == band_hi_of(buffer_size, bands, k) && r@[k].0 <= r@[k].1 && r@[k].1
                <= buffer_size as int / 2,
{
    let half: usize = buffer_size / 2;
    let width: usize = half / bands;
    let mut r: Vec<(usize, usize)> = Vec::new();
    let mut i: usize = 0;
    while i < bands
        invariant
            i <= bands,
            bands >= 1,
            half == buffer_size as int / 2,
            width == band_width_of(buffer_size, bands),
            r@.len() == i,
            forall|k: int|
                0 <= k < i ==> (#[trigger] r@[k]).0 == band_lo_of(buffer_size, bands, k) && r@[k].1
                    == band_hi_of(buffer_size, bands, k) && r@[k].0 <= r@[k].1 && r@[k].1 <= half,
        decreases bands - i,
    {
        proof {
            let w = width as int;
            vstd::arithmetic::div_mod::lemma_remainder_lower(half as int, bands as int);
            assert(half as int / bands as int * bands as int <= half);
            vstd::arithmetic::mul::lemma_mul_inequality(i as int + 1, bands as int, w);
            vstd::arithmetic::mul::lemma_mul_is_commutative(bands as int, w);
            assert((i as int + 1) * w <= half);
            vstd::arithmetic::mul::lemma_mul_inequality(i as int, i as int + 1, w);
        }
        let lo: usize = i * width;
        let hi: usize = if i + 1 == bands {
            half
        } else {
            (i + 1) * width
        };
        r.push((lo, hi));
        i = i + 1;
    }
    r
}

/// The windows themselves, in frame order: window `k` holds exactly the
/// samples `[k * hop, k * hop + buffer_size)`, ready for the transform.
pub fn frame_slices(samples: &Vec<u32>, buffer_size: usize) -> (r: Vec<Vec<u32>>)
    requires
        buffer_size >= 2,
    ensures
        r@.len() == frame_count_of(samples@.len() as usize, buffer_size),
        forall|k: int|
            0 <= k < r@.len() ==> (#[trigger] r@[k])@ == samples@.subrange(
                k * hop_of(buffer_size),
                k * hop_of(buffer_size) + buffer_size,
            ),
{
    let plan = frame_plan(samples.len(), buffer_size);
    let mut r: Vec<Vec<u32>> = Vec::new();
    let mut i: usize = 0;
    while i < plan.len()
        invariant
            i <= plan@.len(),
            buffer_size >= 2,
            plan@.len() == frame_count_of(samples@.len() as usize, buffer_size),
            forall|k: int|
                0 <= k < plan@.len() ==> (#[trigger] plan@[k]).0 == k * hop_of(buffer_size)
                    && plan@[k].1 == k * hop_of(buffer_size) + buffer_size && plan@[k].1
                    <= samples@.len(),
            r@.len() == i,
            forall|k: int|
                0 <= k < i ==> (#[trigger] r@[k])@ == samples@.subrange(
                    k * hop_of(buffer_size),
                    k * hop_of(buffer_size) + buffer_size,
                ),
        decreases plan@.len() - i,
    {
        let window = plan[i];
        let lo: usize = window.0;
        let hi: usize = window.1;
        let mut chunk: Vec<u32> = Vec::new();
        let mut j: usize = lo;
        while j < hi
            invariant
                lo <= j <= hi <= samples@.len(),
                chunk@ == samples@.subrange(lo as int, j as int),
            decreases hi - j,
        {
            chunk.push(samples[j]);
            assert(chunk@ == samples@.subrange(lo as int, j + 1 as int));
            j = j + 1;
        }
        r.push(chunk);
        i = i + 1;
    }
    r
}

/// The absolute time of one frame, in microseconds.
pub fn frame_time_us(
    start_ms: u64,
    frame_index: usize,
    buffer_size: usize,
    sample_rate: u32,
) -> (t: u64)
    requires
        sample_rate >= 1,
        frame_time_us_of(start_ms, frame_index as int, buffer_size, sample_rate) <= u64::MAX,
    ensures
        t == frame_time_us_of(start_ms, frame_index as int, buffer_size, sample_rate),
{
    let hop: usize = buffer_size / 2;
    proof {
        vstd::arithmetic::mul::lemma_mul_upper_bound(
            frame_index as int,
            u64::MAX as int,
            hop as int,
            u64::MAX as int,
        );
    }
    let offset_samples: u128 = (frame_index as u128) * (hop as u128);
    proof {
        let x = offset_samples as int * 1000000;
        let d = sample_rate as int;
        let b = frame_time_us_of(start_ms, frame_index as int, buffer_size, sample_rate);
        vstd::arithmetic::div_mod::lemma_fundamental_div_mod(x, d);
        vstd::arithmetic::div_mod::lemma_mod_division_less_than_divisor(x, d);
        assert(x / d <= b) by {
            vstd::arithmetic::div_mod::lemma_div_pos_is_pos(x, d);
        };
        vstd::arithmetic::mul::lemma_mul_left_inequality(d, x / d, b);
        vstd::arithmetic::mul::lemma_mul_upper_bound(d, u32::MAX as int, b, u64::MAX as int);
        assert(x <= u32::MAX as int * u64::MAX as int + u32::MAX);
    }
    let offset_us: u128 = offset_samples * 1000000u128 / (sample_rate as u128);
    let t128: u128 = (start_ms as u128) * 1000u128 + offset_us;
    assert(t128 == frame_time_us_of(start_ms, frame_index as int, buffer_size, sample_rate));
    t128 as u64
}

/// Whether every timestamp of an analysis run fits into u64
/// microseconds — the machine limit that `frame_time_us` and
/// `assemble_frames` ask their callers to establish. Timestamps never
/// decrease in frame order, so the last frame decides.
pub fn frame_times_fit(
    num_frames: usize,
    start_ms: u64,
    buffer_size: usize,
    sample_rate: u32,
) -> (ok: bool)
    requires
        buffer_size >= 2,
        sample_rate >= 1,
    ensures
        ok == (forall|k: int|
            0 <= k < num_frames ==> frame_time_us_of(start_ms, k, buffer_size, sample_rate)
                <= u64::MAX),
{
    if num_frames == 0 {
        return true;
    }
    let last: usize = num_frames - 1;
    let hop: usize = buffer_size / 2;
    proof {
        vstd::arithmetic::div_mod::lemma_fundamental_div_mod(u64::MAX as int, 1000);
        vstd::arithmetic::div_mod::lemma_mod_division_less_than_divisor(u64::MAX as int, 1000);
    }
    if start_ms > u64::MAX / 1000 {
        proof {
            vstd::arithmetic::mul::lemma_mul_by_zero_is_zero(
                hop_of(buffer_size) * 1000000,
            );
            vstd::arithmetic::mul::lemma_mul_is_associative(0, hop_of(buffer_size), 1000000);
            vstd::arithmetic::div_mod::lemma_div_of0(sample_rate as int);
            assert(frame_time_us_of(start_ms, 0, buffer_size, sample_rate) == start_ms as int
                * 1000);
            assert(start_ms as int * 1000 > u64::MAX);
        }
        return false;
    }
    let base: u64 = start_ms * 1000;
    proof {
        vstd::arithmetic::mul::lemma_mul_upper_bound(
            last as int,
            u64::MAX as int,
            hop as int,
            u64::MAX as int,
        );
    }
    let p: u128 = (last as u128) * (hop as u128);
    let rate128: u128 = sample_rate as u128;
    let q: u128 = p / rate128;
    let rem: u128 = p % rate128;
    proof {
        // The exact quotient split: (p * 1000000) / rate is
        // q * 1000000 plus (rem * 1000000) / rate.
        let pi = p as int;
        let d = sample_rate as int;
        let qi = pi / d;
        let ri = pi % d;
        vstd::arithmetic::div_mod::lemma_fundamental_div_mod(pi, d);
        vstd::arithmetic::div_mod::lemma_mod_division_less_than_divisor(pi, d);
        assert(pi * 1000000 == ri * 1000000 + (qi * 1000000) * d) by (nonlinear_arith)
            requires
                pi == d * qi + ri,
        ;
        vstd::arithmetic::div_mod::lemma_hoist_over_denominator(
            ri * 1000000,
            qi * 1000000,
            d as nat,
        );
        assert((pi * 1000000) / d == qi * 1000000 + (ri * 1000000) / d);
        vstd::arithmetic::div_mod::lemma_div_pos_is_pos(ri * 1000000, d);
        // The last frame's offset term in the timestamp is this very
        // quantity.
        assert(last as int * hop_of(buffer_size) == pi);
        vstd::arithmetic::div_mod::lemma_fundamental_div_mod(u64::MAX as int, 1000000);
        vstd::arithmetic::div_mod::lemma_mod_division_less_than_divisor(u64::MAX as int, 1000000);
    }
    if q > (u64::MAX / 1000000) as u128 {
        proof {
            assert((p as int * 1000000) / sample_rate as int > u64::MAX);
            assert(frame_time_us_of(start_ms, last as int, buffer_size, sample_rate) > u64::MAX);
        }
        return false;
    }
    let offset: u128 = q * 1000000 + (rem * 1000000) / rate128;
    let total: u128 = (base as u128) + offset;
    assert(total == frame_time_us_of(start_ms, last as int, buffer_size, sample_rate));
    if total > u64::MAX as u128 {
        return false;
    }
    proof {
        assert forall|k: int|
            0 <= k < num_frames implies frame_time_us_of(start_ms, k, buffer_size, sample_rate)
            <= u64::MAX by {
            lemma_frame_times_nondecreasing(start_ms, k, last as int, buffer_size, sample_rate);
        }
    }
    true
}

/// An exact copy of a vector of sample or energy bits.
fn copy_bits(v: &Vec<u32>) -> (r: Vec<u32>)
    ensures
        r@ == v@,
{
    let mut r: Vec<u32> = Vec::new();
    let mut i: usize = 0;
    while i < v.len()
        invariant
            i <= v@.len(),
            r@ == v@.subrange(0, i as int),
        decreases v@.len() - i,
    {
        r.push(v[i]);
        assert(r@ == v@.subrange(0, i + 1 as int));
        i = i + 1;
    }
    assert(v@.subrange(0, v@.len() as int) == v@);
    r
}

/// Joins the per-frame band energies with their timestamps, in ascending
/// frame order: one `FrameData` per analysis window, holding exactly the
/// energies handed in for that window and the window's absolute time.
pub fn assemble_frames(
    band_energies: &Vec<Vec<u32>>,
    sample_count: usize,
    sample_rate: u32,
    config: &Config,
) -> (frames: Vec<FrameData>)
    requires
        config.valid(),
        sample_rate >= 1,
        band_energies@.len() == frame_count_of(sample_count, config.buffer_size),
        forall|k: int|
            0 <= k < band_energies@.len() ==> (#[trigger] band_energies@[k])@.len()
                == config.bands,
        forall|k: int|
            0 <= k < band_energies@.len() ==> frame_time_us_of(
                config.start_ms,
                k,
                config.buffer_size,
                sample_rate,
            ) <= u64::MAX,
    ensures
        frames@.len() == frame_count_of(sample_count, config.buffer_size),
        forall|k: int|
            0 <= k < frames@.len() ==> (#[trigger] frames@[k]).bands@ == band_energies@[k]@,
        forall|k: int|
            0 <= k < frames@.len() ==> (#[trigger] frames@[k]).bands@.len() == config.bands,
        forall|k: int|
            0 <= k < frames@.len() ==> (#[trigger] frames@[k]).time_us == frame_time_us_of(
                config.start_ms,
                k,
                config.buffer_size,
                sample_rate,
            ),
{
    let mut frames: Vec<FrameData> = Vec::new();
    let mut i: usize = 0;
    while i < band_energies.len()
        invariant
            i <= band_energies@.len(),
            config.valid(),
            sample_rate >= 1,
            forall|k: int|
                0 <= k < band_energies@.len() ==> (#[trigger] band_energies@[k])@.len()
                    == config.bands,
            forall|k: int|
                0 <= k < band_energies@.len() ==> frame_time_us_of(
                    config.start_ms,
                    k,
                    config.buffer_size,
                    sample_rate,
                ) <= u64::MAX,
            frames@.len() == i,
            forall|k: int|
                0 <= k < i ==> (#[trigger] frames@[k]).bands@ == band_energies@[k]@,
            forall|k: int|
                0 <= k < i ==> (#[trigger] frames@[k]).time_us == frame_time_us_of(
                    config.start_ms,
                    k,
                    config.buffer_size,
                    sample_rate,
                ),
        decreases band_energies@.len() - i,
    {
        let t: u64 = frame_time_us(config.start_ms, i, config.buffer_size, sample_rate);
        let bands: Vec<u32> = copy_bits(&band_energies[i]);
        frames.push(FrameData { time_us: t, bands });
        i = i + 1;
    }
    frames
}

/// Law: frame timestamps never decrease in frame order, whatever the
/// sample rate.
pub proof fn lemma_frame_times_nondecreasing(
    start_ms: u64,
    i: int,
    j: int,
    buffer_size: usize,
    sample_rate: u32,
)
    requires
        0 <= i <= j,
        buffer_size >= 2,
        sample_rate >= 1,
    ensures
        frame_time_us_of(start_ms, i, buffer_size, sample_rate) <= frame_time_us_of(
            start_ms,
            j,
            buffer_size,
            sample_rate,
        ),
{
    let h = hop_of(buffer_size);
    vstd::arithmetic::mul::lemma_mul_inequality(i, j, h * 1000000);
    vstd::arithmetic::mul::lemma_mul_is_associative(i, h, 1000000);
    vstd::arithmetic::mul::lemma_mul_is_associative(j, h, 1000000);
    vstd::arithmetic::div_mod::lemma_div_is_ordered(
        i * h * 1000000,
        j * h * 1000000,
        sample_rate as int,
    );
}

/// Law: frame timestamps are strictly increasing in frame order. This
/// holds whenever one hop of samples lasts at least one microsecond —
/// that is, whenever the sample rate does not exceed a million samples
/// per hop.
pub proof fn lemma_frame_times_strictly_increasing(
    start_ms: u64,
    i: int,
    j: int,
    buffer_size: usize,
    sample_rate: u32,
)
    requires
        0 <= i < j,
        buffer_size >= 2,
        sample_rate >= 1,
        sample_rate as int <= 1000000 * hop_of(buffer_size),
    ensures
        frame_time_us_of(start_ms, i, buffer_size, sample_rate) < frame_time_us_of(
            start_ms,
            j,
            buffer_size,
            sample_rate,
        ),
{
    let h = hop_of(buffer_size);
    let d = sample_rate as int;
    let a = i * h * 1000000;
    let b = j * h * 1000000;
    assert(a + d <= b) by (nonlinear_arith)
        requires
            0 <= i < j,
            h >= 1,
            d >= 1,
            d <= 1000000 * h,
            a == i * h * 1000000,
            b == j * h * 1000000,
    ;
    vstd::arithmetic::div_mod::lemma_div_plus_one(a, d);
    vstd::arithmetic::div_mod::lemma_div_is_ordered(a + d, b, d);
    assert(a / d < b / d);
}

} // verus!
