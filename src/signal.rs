use vstd::prelude::*;
use crate::numeric::{isqrt, isqrt_spec, div_trunc};

verus! {

/// Largest number of samples the analysis accepts: its sums are kept in
/// 128 bits.
pub const MAX_SAMPLES: usize = 0xFFFF_FFFF;

/// `10^12 / 2^30 == 5^12 / 2^18`: turns a mean square of raw samples into the
/// square of an amplitude in millionths of full scale.
pub const MICRO_SQ_NUM: u128 = 244_140_625;
pub const MICRO_SQ_DEN: u128 = 262_144;

pub open spec fn sq(x: i16) -> int {
    (x as int) * (x as int)
}

/// Sum of the squares of `s[lo..hi]`.
pub open spec fn sum_sq(s: Seq<i16>, lo: int, hi: int) -> int
    decreases hi - lo,
{
    if hi <= lo {
        0
    } else {
        sum_sq(s, lo, hi - 1) + sq(s[hi - 1])
    }
}

pub proof fn lemma_sq_bound(x: i16)
    ensures
        0 <= sq(x) <= 0x4000_0000,
{
    assert(0 <= (x as int) * (x as int) <= 0x4000_0000) by (nonlinear_arith)
        requires
            -32768 <= x as int <= 32767,
    ;
}

/// Sum of the squares of `s[lo..hi]`.
pub fn range_sum_sq(s: &Vec<i16>, lo: usize, hi: usize) -> (r: u128)
    requires
        lo <= hi <= s@.len(),
        s@.len() <= MAX_SAMPLES,
    ensures
        r as int == sum_sq(s@, lo as int, hi as int),
        r <= (hi - lo) as int * 0x4000_0000,
{
    let mut acc: u128 = 0;
    let mut i = lo;
    while i < hi
        invariant
            lo <= i <= hi <= s@.len(),
            s@.len() <= MAX_SAMPLES,
            acc as int == sum_sq(s@, lo as int, i as int),
            acc <= (i - lo) as int * 0x4000_0000,
        decreases hi - i,
    {
        proof {
            lemma_sq_bound(s@[i as int]);
        }
        let x = s[i] as i64;
        acc = acc + (x * x) as u128;
        i = i + 1;
    }
    acc
}

/// Root mean square amplitude of `s[lo..hi]`, in millionths of full scale.
pub open spec fn rms_micro_spec(s: Seq<i16>, lo: int, hi: int) -> int {
    isqrt_spec(sum_sq(s, lo, hi) * MICRO_SQ_NUM as int / ((hi - lo) * MICRO_SQ_DEN as int))
}

/// Root mean square amplitude of `s[lo..hi]` (non-empty), in millionths of
/// full scale.
pub fn rms_micro(s: &Vec<i16>, lo: usize, hi: usize) -> (r: u64)
    requires
        lo < hi <= s@.len(),
        s@.len() <= MAX_SAMPLES,
    ensures
        r as int == rms_micro_spec(s@, lo as int, hi as int),
        r <= 1_000_000,
{
    let e = range_sum_sq(s, lo, hi);
    let len = (hi - lo) as u128;
    assert(e * MICRO_SQ_NUM <= 0x4000_0000 * 0x1_0000_0000 * 244_140_625) by (nonlinear_arith)
        requires
            e <= len * 0x4000_0000,
            len <= 0x1_0000_0000,
    ;
    let q = e * MICRO_SQ_NUM / (len * MICRO_SQ_DEN);
    assert(q <= 1_000_000_000_000) by (nonlinear_arith)
        requires
            e <= len * 0x4000_0000,
            len >= 1,
            q == e * 244_140_625 / (len * 262_144),
    ;
    let r = isqrt(q);
    assert(r <= 1_000_000) by (nonlinear_arith)
        requires
            r * r <= q,
            q <= 1_000_000_000_000,
            r >= 0,
    ;
    r as u64
}

/// Number of sign changes between consecutive samples of `s[..hi]`.
pub open spec fn crossings(s: Seq<i16>, hi: int) -> int
    decreases hi,
{
    if hi <= 1 {
        0
    } else {
        crossings(s, hi - 1) + if (s[hi - 2] >= 0) != (s[hi - 1] >= 0) { 1int } else { 0int }
    }
}

/// Sign changes per second in thousandths: crossings over duration.
pub open spec fn zero_crossing_rate_spec(s: Seq<i16>, sample_rate: int) -> int {
    crossings(s, s.len() as int) * sample_rate * 1000 / (s.len() as int)
}

pub fn zero_crossing_rate(s: &Vec<i16>, sample_rate: u32) -> (r: u64)
    requires
        0 < s@.len() <= MAX_SAMPLES,
    ensures
        r as int == zero_crossing_rate_spec(s@, sample_rate as int),
{
    let n = s.len();
    let mut count: u64 = 0;
    let mut i: usize = 1;
    while i < n
        invariant
            1 <= i <= n,
            n == s@.len(),
            n <= MAX_SAMPLES,
            count as int == crossings(s@, i as int),
            count < i,
        decreases n - i,
    {
        if (s[i - 1] >= 0) != (s[i] >= 0) {
            count = count + 1;
        }
        i = i + 1;
    }
    let c = count as u128;
    let sr = sample_rate as u128;
    assert(c * sr <= 0xFFFF_FFFF * 0xFFFF_FFFF) by (nonlinear_arith)
        requires
            c <= 0xFFFF_FFFF,
            sr <= 0xFFFF_FFFF,
    ;
    let num = c * sr * 1000;
    let r = num / n as u128;
    assert(r <= sr * 1000) by (nonlinear_arith)
        requires
            c < n,
            n >= 1,
            num == c * sr * 1000,
            r as int == num as int / (n as int),
    ;
    r as u64
}

/// Sum of a sequence of integers.
pub open spec fn seq_sum(v: Seq<int>) -> int
    decreases v.len(),
{
    if v.len() == 0 {
        0
    } else {
        seq_sum(v.drop_last()) + v.last()
    }
}

/// Sum of the squared deviations of `v` from `m`.
pub open spec fn seq_sq_dev(v: Seq<int>, m: int) -> int
    decreases v.len(),
{
    if v.len() == 0 {
        0
    } else {
        seq_sq_dev(v.drop_last(), m) + (v.last() - m) * (v.last() - m)
    }
}

/// Length of a loudness frame: 20 ms.
pub open spec fn loudness_frame_len(sample_rate: int) -> int {
    sample_rate / 50
}

/// A frame counts as voiced when its RMS amplitude exceeds 1% of full scale.
pub open spec fn voiced_frame(s: Seq<i16>, f: int, k: int) -> bool {
    sum_sq(s, k * f, k * f + f) * 10000 > f * 0x4000_0000
}

/// RMS levels (millionths of full scale) of the voiced frames among the
/// first `k` frames of length `f`, in order.
pub open spec fn voiced_levels(s: Seq<i16>, f: int, k: int) -> Seq<int>
    decreases k,
{
    if k <= 0 {
        seq![]
    } else {
        voiced_levels(s, f, k - 1) + if voiced_frame(s, f, k - 1) {
            seq![rms_micro_spec(s, (k - 1) * f, (k - 1) * f + f)]
        } else {
            seq![]
        }
    }
}

/// Coefficient of variation (standard deviation over mean) of the voiced frame
/// levels, in millionths, at most `2_000_000`; 0 with fewer than two voiced
/// frames.
pub open spec fn energy_variance_spec(s: Seq<i16>, sample_rate: int) -> int {
    let f = loudness_frame_len(sample_rate);
    let n = s.len() as int;
    if f == 0 || n < 2 * f {
        0
    } else {
        let v = voiced_levels(s, f, n / f);
        if v.len() < 2 {
            0
        } else {
            let mean = seq_sum(v) / (v.len() as int);
            if mean < 1000 {
                0
            } else {
                let cv = isqrt_spec(seq_sq_dev(v, mean) / (v.len() as int)) * 1_000_000 / mean;
                if cv > 2_000_000 {
                    2_000_000
                } else {
                    cv
                }
            }
        }
    }
}

proof fn lemma_frame_fits(k: int, f: int, n: int)
    requires
        0 <= k < n / f,
        f > 0,
        n >= 0,
    ensures
        k * f + f <= n,
        0 <= k * f,
{
    assert(k * f + f <= n) by (nonlinear_arith)
        requires
            k + 1 <= n / f,
            f > 0,
            n >= 0,
    {
        assert((n / f) * f <= n) by (nonlinear_arith) requires f > 0, n >= 0;
        assert((k + 1) * f <= (n / f) * f) by (nonlinear_arith) requires k + 1 <= n / f, f > 0;
    }
    assert(0 <= k * f) by (nonlinear_arith) requires k >= 0, f > 0;
}

/// Loudness fluctuation across 20 ms frames: the coefficient of variation of
/// the voiced frames' RMS levels, in millionths.
pub fn calculate_energy_variance(s: &Vec<i16>, sample_rate: u32) -> (r: u64)
    requires
        s@.len() <= MAX_SAMPLES,
    ensures
        r as int == energy_variance_spec(s@, sample_rate as int),
        r <= 2_000_000,
{
    let f: usize = (sample_rate / 50) as usize;
    let n = s.len();
    if f == 0 || n < 2 * f {
        return 0;
    }
    let frames = n / f;
    let ghost fi = f as int;
    let mut levels: Vec<u64> = Vec::new();
    let mut k: usize = 0;
    while k < frames
        invariant
            f > 0,
            fi == f as int,
            n == s@.len(),
            n <= MAX_SAMPLES,
            frames == n / f,
            k <= frames,
            levels@.len() == voiced_levels(s@, fi, k as int).len(),
            levels@.len() <= k,
            forall|i: int| 0 <= i < levels@.len() ==> levels@[i] as int == #[trigger] voiced_levels(s@, fi, k as int)[i]
                && levels@[i] <= 1_000_000,
        decreases frames - k,
    {
        proof {
            lemma_frame_fits(k as int, fi, n as int);
        }
        let lo = k * f;
        let hi = lo + f;
        let e = range_sum_sq(s, lo, hi);
        let ghost prev = voiced_levels(s@, fi, k as int);
        if e * 10000 > f as u128 * 0x4000_0000 {
            let lvl = rms_micro(s, lo, hi);
            levels.push(lvl);
        }
        k = k + 1;
        proof {
            let cur = voiced_levels(s@, fi, k as int);
            if voiced_frame(s@, fi, k - 1) {
                assert(cur == prev + seq![rms_micro_spec(s@, lo as int, hi as int)]);
            } else {
                assert(cur =~= prev);
            }
            assert forall|i: int| 0 <= i < levels@.len() implies levels@[i] as int == #[trigger] voiced_levels(s@, fi, k as int)[i]
                && levels@[i] <= 1_000_000 by {
                if i < prev.len() {
                    assert(cur[i] == prev[i]);
                }
            }
        }
    }
    let ghost v = voiced_levels(s@, fi, frames as int);
    assert(k == frames);
    assert forall|j: int| 0 <= j < levels@.len() implies levels@[j] as int == #[trigger] v[j]
        && levels@[j] <= 1_000_000 by {
        assert(levels@[j] as int == voiced_levels(s@, fi, k as int)[j]);
    }
    let count = levels.len();
    assert(frames <= n) by (nonlinear_arith)
        requires
            frames == n / f,
            f > 0,
    ;
    if count < 2 {
        return 0;
    }
    let mut sum: u128 = 0;
    let mut i: usize = 0;
    while i < count
        invariant
            count == levels@.len(),
            count == v.len(),
            i <= count,
            count <= MAX_SAMPLES,
            forall|j: int| 0 <= j < count ==> levels@[j] as int == #[trigger] v[j] && levels@[j] <= 1_000_000,
            sum as int == seq_sum(v.take(i as int)),
            sum <= i as int * 1_000_000,
        decreases count - i,
    {
        proof {
            assert(v.take(i as int + 1).drop_last() =~= v.take(i as int));
            assert(levels@[i as int] as int == v[i as int]);
        }
        sum = sum + levels[i] as u128;
        i = i + 1;
    }
    proof {
        assert(v.take(count as int) =~= v);
    }
    let mean = sum / count as u128;
    assert(mean <= 1_000_000) by (nonlinear_arith)
        requires
            sum <= count * 1_000_000,
            count >= 1,
            mean as int == sum as int / (count as int),
    ;
    if mean < 1000 {
        return 0;
    }
    let mut dev: u128 = 0;
    let mut i: usize = 0;
    while i < count
        invariant
            count == levels@.len(),
            count == v.len(),
            i <= count,
            count <= MAX_SAMPLES,
            mean <= 1_000_000,
            forall|j: int| 0 <= j < count ==> levels@[j] as int == #[trigger] v[j] && levels@[j] <= 1_000_000,
            dev as int == seq_sq_dev(v.take(i as int), mean as int),
            dev <= i as int * 1_000_000_000_000,
        decreases count - i,
    {
        proof {
            assert(v.take(i as int + 1).drop_last() =~= v.take(i as int));
        }
        assert(levels@[i as int] as int == v[i as int]);
        let x = levels[i] as u128;
        let d: u128 = if x >= mean { x - mean } else { mean - x };
        assert(d * d <= 1_000_000_000_000) by (nonlinear_arith)
            requires
                d <= 1_000_000,
        ;
        assert((x as int - mean as int) * (x as int - mean as int) == d * d) by (nonlinear_arith)
            requires
                d as int == x as int - mean as int || d as int == mean as int - x as int,
        ;
        dev = dev + d * d;
        i = i + 1;
    }
    proof {
        assert(v.take(count as int) =~= v);
    }
    let var = dev / count as u128;
    let sd = isqrt(var);
    let cv = sd * 1_000_000 / mean;
    if cv > 2_000_000 {
        2_000_000
    } else {
        cv as u64
    }
}

/// Numerator of the high-pass gain: `2π × 2 kHz`, in thousandths of a hertz.
/// The gain is `HP_GAIN_NUM / (HP_GAIN_NUM + 1000 × sample_rate)`, which is
/// `1 / (1 + RC × sample_rate)` for `RC = 1 / (2π × 2 kHz)`.
pub const HP_GAIN_NUM: u64 = 12_566_371;

/// Fewest samples for which the high-frequency ratio is computed.
pub const HF_MIN_SAMPLES: usize = 512;

/// Bound on the magnitude of the filtered signal.
pub const HP_BOUND: i128 = 0x100_0000_0000;

/// Output of the first-order high-pass filter at sample `i`, with gain
/// `a / b`, rounded toward zero at each step; 0 at the first sample.
pub open spec fn high_pass(s: Seq<i16>, a: int, b: int, i: int) -> int
    decreases i,
{
    if i <= 0 {
        0
    } else {
        div_trunc(a * (high_pass(s, a, b, i - 1) + s[i] - s[i - 1]), b)
    }
}

/// Energy of the high-passed signal over samples `1..=i`.
pub open spec fn high_pass_energy(s: Seq<i16>, a: int, b: int, i: int) -> int
    decreases i,
{
    if i <= 0 {
        0
    } else {
        high_pass_energy(s, a, b, i - 1) + high_pass(s, a, b, i) * high_pass(s, a, b, i)
    }
}

/// Share of the energy above about 2 kHz, in millionths, at most `1_000_000`.
/// Both energies leave out the first sample. Below 512 samples it is 0. With
/// no sample rate the gain is 1 and the filter passes every change.
pub open spec fn high_freq_ratio_spec(s: Seq<i16>, sample_rate: int) -> int {
    let n = s.len() as int;
    if n < HF_MIN_SAMPLES as int {
        0
    } else {
        let a = HP_GAIN_NUM as int;
        let b = a + 1000 * sample_rate;
        let total = sum_sq(s, 1, n);
        let high = high_pass_energy(s, a, b, n - 1);
        if total == 0 {
            0
        } else if high >= total {
            1_000_000
        } else {
            high * 1_000_000 / total
        }
    }
}

proof fn lemma_high_pass_step(x: int, a: int, b: int)
    requires
        -(HP_BOUND as int) - 65535 <= x <= HP_BOUND as int + 65535,
        0 < a,
        a * (HP_BOUND as int + 65535) <= b * (HP_BOUND as int),
    ensures
        -(HP_BOUND as int) <= div_trunc(a * x, b) <= HP_BOUND as int,
{
    let m = HP_BOUND as int;
    assert(b > 0) by (nonlinear_arith)
        requires
            0 < a,
            a * (m + 65535) <= b * m,
            m > 0,
    ;
    let ax = if x >= 0 { x } else { -x };
    assert(a * ax <= a * (m + 65535)) by (nonlinear_arith)
        requires
            0 <= ax <= m + 65535,
            a > 0,
    ;
    assert(a * ax / b <= m) by (nonlinear_arith)
        requires
            a * ax <= b * m,
            b > 0,
    ;
    assert(a * ax >= 0) by (nonlinear_arith) requires a > 0, ax >= 0;
    if x < 0 {
        assert(a * x == -(a * ax)) by (nonlinear_arith) requires ax == -x;
    }
}

/// With unit gain (no sample rate, so no cutoff) the filter passes the
/// difference through unchanged.
proof fn lemma_unit_gain(x: int, a: int)
    requires
        a > 0,
    ensures
        div_trunc(a * x, a) == x,
{
    if x >= 0 {
        assert((a * x) / a == x) by (nonlinear_arith)
            requires
                a > 0,
                x >= 0,
        ;
    } else {
        assert(a * x == -(a * (-x))) by (nonlinear_arith);
        assert((a * (-x)) / a == -x) by (nonlinear_arith)
            requires
                a > 0,
                x < 0,
        ;
    }
}

/// Share of the signal's energy above about 2 kHz, in millionths.
pub fn calculate_high_freq_ratio(s: &Vec<i16>, sample_rate: u32) -> (r: u64)
    requires
        s@.len() <= MAX_SAMPLES,
    ensures
        r as int == high_freq_ratio_spec(s@, sample_rate as int),
        r <= 1_000_000,
{
    let n = s.len();
    if n < HF_MIN_SAMPLES {
        return 0;
    }
    let a: i128 = HP_GAIN_NUM as i128;
    let b: i128 = a + 1000 * sample_rate as i128;
    let ghost ai = a as int;
    let ghost bi = b as int;
    if sample_rate >= 1 {
        assert(ai * (HP_BOUND as int + 65535) <= bi * (HP_BOUND as int)) by (nonlinear_arith)
            requires
                ai == 12_566_371,
                bi == ai + 1000 * (sample_rate as int),
                sample_rate >= 1,
        ;
    }
    let mut high: u128 = 0;
    let mut hp: i128 = 0;
    let mut i: usize = 1;
    while i < n
        invariant
            1 <= i <= n,
            n == s@.len(),
            n <= MAX_SAMPLES,
            ai == a as int,
            bi == b as int,
            a == 12_566_371,
            b > 0,
            bi == ai + 1000 * (sample_rate as int),
            sample_rate >= 1 ==> ai * (HP_BOUND as int + 65535) <= bi * (HP_BOUND as int),
            sample_rate == 0 ==> hp as int == s@[i - 1] as int - s@[0] as int,
            hp as int == high_pass(s@, ai, bi, i as int - 1),
            -HP_BOUND <= hp <= HP_BOUND,
            high as int == high_pass_energy(s@, ai, bi, i as int - 1),
            high <= (i as int) * 0x1_0000_0000_0000_0000_0000,
        decreases n - i,
    {
        let d = s[i] as i128 - s[i - 1] as i128;
        let x = hp + d;
        proof {
            if sample_rate >= 1 {
                lemma_high_pass_step(x as int, ai, bi);
            } else {
                lemma_unit_gain(x as int, ai);
            }
        }
        let prod = a * x;
        let next: i128 = if prod >= 0 { prod / b } else { -((-prod) / b) };
        hp = next;
        let mag: u128 = if hp >= 0 { hp as u128 } else { (-hp) as u128 };
        assert(mag * mag <= 0x1_0000_0000_0000_0000_0000) by (nonlinear_arith)
            requires
                mag <= 0x100_0000_0000,
        ;
        assert(mag * mag == hp * hp) by (nonlinear_arith)
            requires
                mag as int == hp as int || mag as int == -(hp as int),
        ;
        high = high + mag * mag;
        i = i + 1;
    }
    let total = range_sum_sq(s, 1, n);
    if total == 0 {
        0
    } else if high >= total {
        1_000_000
    } else {
        let q = high * 1_000_000 / total;
        assert(q <= 1_000_000) by (nonlinear_arith)
            requires
                high < total,
                q as int == (high as int) * 1_000_000 / (total as int),
        ;
        q as u64
    }
}

} // verus!
