use vstd::prelude::*;
use crate::numeric::{isqrt, isqrt_spec, div_trunc};
use crate::signal::{sum_sq, range_sum_sq, seq_sum, MAX_SAMPLES};

verus! {

/// Normalized correlation that a lag needs to be taken as the period, in
/// millionths (exclusive).
pub const MIN_PERIOD_CORRELATION: i128 = 300_000;

/// Length of a pitch frame: 40 ms.
pub open spec fn pitch_frame_len(sample_rate: int) -> int {
    sample_rate / 25
}

/// Shortest lag searched: the period of 400 Hz.
pub open spec fn min_lag_spec(sample_rate: int) -> int {
    sample_rate / 400
}

/// Longest lag searched: the period of 80 Hz.
pub open spec fn max_lag_spec(sample_rate: int) -> int {
    sample_rate / 80
}

/// `Σ s[o + i] · s[o + i + lag]` for `i < cnt`.
pub open spec fn cross(s: Seq<i16>, o: int, lag: int, cnt: int) -> int
    decreases cnt,
{
    if cnt <= 0 {
        0
    } else {
        cross(s, o, lag, cnt - 1) + (s[o + cnt - 1] as int) * (s[o + cnt - 1 + lag] as int)
    }
}

/// Normalized autocorrelation of the frame `s[o..o + fl]` at `lag`, in
/// millionths, rounded toward zero: the lagged products over the root of the
/// frame energy times the energy of the lagged part; 0 when that part is silent.
pub open spec fn norm_corr(s: Seq<i16>, o: int, fl: int, lag: int) -> int {
    let norm = sum_sq(s, o + lag, o + fl);
    if norm > 0 {
        div_trunc(
            cross(s, o, lag, fl - lag) * 1_000_000,
            isqrt_spec(sum_sq(s, o, o + fl) * norm),
        )
    } else {
        0
    }
}

/// The first lag in `min_lag..hi` of highest normalized correlation, with that
/// correlation; `(min_lag, -1_000_000)` for an empty range.
pub open spec fn best_lag(s: Seq<i16>, o: int, fl: int, min_lag: int, hi: int) -> (int, int)
    decreases hi - min_lag,
{
    if hi <= min_lag {
        (min_lag, -1_000_000)
    } else {
        let prev = best_lag(s, o, fl, min_lag, hi - 1);
        let c = norm_corr(s, o, fl, hi - 1);
        if c > prev.1 {
            (hi - 1, c)
        } else {
            prev
        }
    }
}

/// The pitch period of the frame `s[o..o + fl]`, in samples, if its
/// autocorrelation peak over the lags of 80 to 400 Hz (and at most half the
/// frame) is strong enough.
pub open spec fn frame_period(s: Seq<i16>, o: int, fl: int, min_lag: int, max_lag: int) -> Option<int> {
    let ml = if max_lag < fl / 2 { max_lag } else { fl / 2 };
    if min_lag >= ml || sum_sq(s, o, o + fl) == 0 {
        None
    } else {
        let b = best_lag(s, o, fl, min_lag, ml);
        if b.1 > MIN_PERIOD_CORRELATION as int {
            Some(b.0)
        } else {
            None
        }
    }
}

/// A pitch frame is analysed when its mean square exceeds `10^-4` of full
/// scale squared.
pub open spec fn pitch_frame_voiced(s: Seq<i16>, o: int, fl: int) -> bool {
    !(sum_sq(s, o, o + fl) * 10000 < fl * 0x4000_0000)
}

/// Periods found in the first `j` pitch frames, which start every `hop`
/// samples.
pub open spec fn periods(s: Seq<i16>, sample_rate: int, j: int) -> Seq<int>
    decreases j,
{
    if j <= 0 {
        seq![]
    } else {
        let fl = pitch_frame_len(sample_rate);
        let o = (j - 1) * (fl / 2);
        let here = if pitch_frame_voiced(s, o, fl) {
            match frame_period(s, o, fl, min_lag_spec(sample_rate), max_lag_spec(sample_rate)) {
                Some(p) => seq![p],
                None => seq![],
            }
        } else {
            seq![]
        };
        periods(s, sample_rate, j - 1) + here
    }
}

/// Number of pitch frames that fit in `n` samples.
pub open spec fn pitch_frame_count(n: int, sample_rate: int) -> int {
    let fl = pitch_frame_len(sample_rate);
    let hop = fl / 2;
    if n < fl || hop == 0 {
        0
    } else {
        (n - fl) / hop + 1
    }
}

/// Sum of the absolute differences of consecutive elements.
pub open spec fn abs_diff_sum(v: Seq<int>) -> int
    decreases v.len(),
{
    if v.len() < 2 {
        0
    } else {
        let d = v.last() - v[v.len() - 2];
        abs_diff_sum(v.drop_last()) + if d >= 0 { d } else { -d }
    }
}

/// Fundamental frequency in thousandths of a hertz (the sample rate over the
/// mean period) and jitter in millionths (mean absolute period change over the
/// mean period, at most `1_000_000`); both 0 when no frame has a period.
pub open spec fn pitch_spec(s: Seq<i16>, sample_rate: int) -> (int, int) {
    let p = periods(s, sample_rate, pitch_frame_count(s.len() as int, sample_rate));
    let k = p.len() as int;
    let sp = seq_sum(p);
    if k == 0 || sp == 0 {
        (0, 0)
    } else {
        let f0 = sample_rate * k * 1000 / sp;
        let jitter = if k >= 2 {
            let j = abs_diff_sum(p) * k * 1_000_000 / ((k - 1) * sp);
            if j > 1_000_000 {
                1_000_000
            } else {
                j
            }
        } else {
            0
        };
        (f0, jitter)
    }
}

proof fn lemma_cross_bound(s: Seq<i16>, o: int, lag: int, cnt: int)
    requires
        0 <= o,
        0 <= lag,
        0 <= cnt,
        o + cnt + lag <= s.len(),
    ensures
        -cnt * 0x4000_0000 <= cross(s, o, lag, cnt) <= cnt * 0x4000_0000,
    decreases cnt,
{
    if cnt > 0 {
        lemma_cross_bound(s, o, lag, cnt - 1);
        let x = s[o + cnt - 1] as int;
        let y = s[o + cnt - 1 + lag] as int;
        assert(-0x4000_0000 <= x * y <= 0x4000_0000) by (nonlinear_arith)
            requires
                -32768 <= x <= 32767,
                -32768 <= y <= 32767,
        ;
    }
}

/// `Σ s[o + i] · s[o + i + lag]` for `i < cnt`.
fn cross_sum(s: &Vec<i16>, o: usize, lag: usize, cnt: usize) -> (r: i128)
    requires
        o + cnt + lag <= s@.len(),
        s@.len() <= MAX_SAMPLES,
    ensures
        r as int == cross(s@, o as int, lag as int, cnt as int),
        -(cnt as int) * 0x4000_0000 <= r <= cnt as int * 0x4000_0000,
{
    let mut acc: i128 = 0;
    let mut i: usize = 0;
    while i < cnt
        invariant
            i <= cnt,
            o + cnt + lag <= s@.len(),
            s@.len() <= MAX_SAMPLES,
            acc as int == cross(s@, o as int, lag as int, i as int),
        decreases cnt - i,
    {
        proof {
            lemma_cross_bound(s@, o as int, lag as int, i as int);
        }
        assert(-0x4000_0000 <= (s@[o + i] as int) * (s@[o + i + lag] as int) <= 0x4000_0000) by (nonlinear_arith)
            requires
                -32768 <= s@[o + i] as int <= 32767,
                -32768 <= s@[o + i + lag] as int <= 32767,
        ;
        acc = acc + (s[o + i] as i128) * (s[o + i + lag] as i128);
        i = i + 1;
    }
    proof {
        lemma_cross_bound(s@, o as int, lag as int, cnt as int);
    }
    acc
}

/// The pitch period of the frame `s[o..o + fl]`, if any.
fn autocorrelation_pitch(s: &Vec<i16>, o: usize, fl: usize, min_lag: usize, max_lag: usize) -> (r: Option<usize>)
    requires
        o + fl <= s@.len(),
        s@.len() <= MAX_SAMPLES,
        fl <= 0x1000_0000,
    ensures
        match r {
            Some(p) => frame_period(s@, o as int, fl as int, min_lag as int, max_lag as int) == Some(p as int),
            None => frame_period(s@, o as int, fl as int, min_lag as int, max_lag as int) == None::<int>,
        },
        r.is_some() ==> min_lag <= r.unwrap() < fl,
{
    let ml = if max_lag < fl / 2 { max_lag } else { fl / 2 };
    if min_lag >= ml {
        return None;
    }
    let r0 = range_sum_sq(s, o, o + fl);
    if r0 == 0 {
        return None;
    }
    let mut best_lag_v: usize = min_lag;
    let mut best_corr: i128 = -1_000_000;
    let mut lag: usize = min_lag;
    while lag < ml
        invariant
            min_lag <= lag <= ml <= fl / 2,
            o + fl <= s@.len(),
            s@.len() <= MAX_SAMPLES,
            fl <= 0x1000_0000,
            r0 as int == sum_sq(s@, o as int, o as int + fl as int),
            0 < r0 <= fl as int * 0x4000_0000,
            (best_lag_v as int, best_corr as int) == best_lag(s@, o as int, fl as int, min_lag as int, lag as int),
            min_lag <= best_lag_v < ml,
        decreases ml - lag,
    {
        let norm = range_sum_sq(s, o + lag, o + fl);
        let c: i128 = if norm > 0 {
            assert(r0 * norm <= 0x1000_0000 * 0x4000_0000 * 0x1000_0000 * 0x4000_0000) by (nonlinear_arith)
                requires
                    r0 <= fl * 0x4000_0000,
                    norm <= (fl - lag) * 0x4000_0000,
                    fl <= 0x1000_0000,
                    lag <= fl,
            ;
            let d = isqrt(r0 * norm);
            assert(d >= 1) by (nonlinear_arith)
                requires
                    r0 * norm < (d + 1) * (d + 1),
                    r0 >= 1,
                    norm >= 1,
                    d >= 0,
            ;
            let x = cross_sum(s, o, lag, fl - lag);
            let num = x * 1_000_000;
            if num >= 0 {
                (num / d as i128)
            } else {
                -((-num) / d as i128)
            }
        } else {
            0
        };
        if c > best_corr {
            best_corr = c;
            best_lag_v = lag;
        }
        lag = lag + 1;
    }
    if best_corr > MIN_PERIOD_CORRELATION {
        Some(best_lag_v)
    } else {
        None
    }
}

proof fn lemma_pitch_frame_fits(j: int, hop: int, fl: int, n: int)
    requires
        hop > 0,
        fl <= n,
        0 <= j < (n - fl) / hop + 1,
    ensures
        0 <= j * hop,
        j * hop + fl <= n,
{
    assert(j * hop <= n - fl) by (nonlinear_arith)
        requires
            j <= (n - fl) / hop,
            hop > 0,
            n - fl >= 0,
    {
        assert(((n - fl) / hop) * hop <= n - fl) by (nonlinear_arith) requires hop > 0, n - fl >= 0;
        assert(j * hop <= ((n - fl) / hop) * hop) by (nonlinear_arith) requires j <= (n - fl) / hop, hop > 0;
    }
    assert(0 <= j * hop) by (nonlinear_arith) requires j >= 0, hop > 0;
}

/// Estimates the fundamental frequency (thousandths of a hertz) and the pitch
/// jitter (millionths) from the autocorrelation periods of 40 ms frames that
/// overlap by half.
pub fn estimate_pitch_and_jitter(s: &Vec<i16>, sample_rate: u32) -> (r: (u64, u64))
    requires
        s@.len() <= MAX_SAMPLES,
    ensures
        (r.0 as int, r.1 as int) == pitch_spec(s@, sample_rate as int),
        r.1 <= 1_000_000,
{
    let n = s.len();
    let fl: usize = (sample_rate / 25) as usize;
    let hop: usize = fl / 2;
    let min_lag: usize = (sample_rate / 400) as usize;
    let max_lag: usize = (sample_rate / 80) as usize;
    let ghost sr = sample_rate as int;
    let count: usize = if n < fl || hop == 0 { 0 } else { (n - fl) / hop + 1 };
    assert(count as int == pitch_frame_count(n as int, sr));
    let mut pv: Vec<usize> = Vec::new();
    let mut j: usize = 0;
    while j < count
        invariant
            n == s@.len(),
            n <= MAX_SAMPLES,
            sr == sample_rate as int,
            fl as int == pitch_frame_len(sr),
            hop == fl / 2,
            min_lag as int == min_lag_spec(sr),
            max_lag as int == max_lag_spec(sr),
            fl <= 0x1000_0000,
            count == 0 || (fl <= n && hop > 0 && count as int == (n - fl) as int / (hop as int) + 1),
            j <= count,
            pv@.len() == periods(s@, sr, j as int).len(),
            pv@.len() <= j,
            forall|i: int| 0 <= i < pv@.len() ==> pv@[i] as int == #[trigger] periods(s@, sr, j as int)[i],
            forall|i: int| 0 <= i < pv@.len() ==> min_lag <= #[trigger] pv@[i] < fl,
        decreases count - j,
    {
        proof {
            lemma_pitch_frame_fits(j as int, hop as int, fl as int, n as int);
        }
        let o = j * hop;
        let ghost prev = periods(s@, sr, j as int);
        let e = range_sum_sq(s, o, o + fl);
        let mut found: Option<usize> = None;
        if !(e * 10000 < fl as u128 * 0x4000_0000) {
            found = autocorrelation_pitch(s, o, fl, min_lag, max_lag);
        }
        match found {
            Some(p) => {
                pv.push(p);
            },
            None => {},
        }
        j = j + 1;
        proof {
            let cur = periods(s@, sr, j as int);
            assert((j - 1) * (fl as int / 2) == o as int);
            assert(cur == prev + match found {
                Some(p) => seq![p as int],
                None => Seq::<int>::empty(),
            });
            assert forall|i: int| 0 <= i < pv@.len() implies pv@[i] as int == #[trigger] periods(s@, sr, j as int)[i] by {
                if i < prev.len() {
                    assert(cur[i] == prev[i]);
                }
            }
        }
    }
    let ghost p = periods(s@, sr, count as int);
    assert(j == count);
    assert forall|i: int| 0 <= i < pv@.len() implies pv@[i] as int == #[trigger] p[i] by {
        assert(pv@[i] as int == periods(s@, sr, j as int)[i]);
    }
    let k = pv.len();
    if k == 0 {
        return (0, 0);
    }
    assert(count <= n) by {
        assert(count > 0);
        assert(fl >= 2);
        vstd::arithmetic::div_mod::lemma_div_is_ordered_by_denominator((n - fl) as int, 1, hop as int);
    }
    let mut sp: u128 = 0;
    let mut i: usize = 0;
    while i < k
        invariant
            k == pv@.len(),
            k == p.len(),
            k <= MAX_SAMPLES,
            i <= k,
            fl <= 0x1000_0000,
            forall|t: int| 0 <= t < k ==> pv@[t] as int == #[trigger] p[t],
            forall|t: int| 0 <= t < k ==> min_lag <= #[trigger] pv@[t] < fl,
            sp as int == seq_sum(p.take(i as int)),
            i as int * (min_lag as int) <= sp <= i as int * 0x1000_0000,
        decreases k - i,
    {
        proof {
            assert(p.take(i as int + 1).drop_last() =~= p.take(i as int));
            assert(pv@[i as int] as int == p[i as int]);
        }
        assert((i as int + 1) * (min_lag as int) == i as int * (min_lag as int) + min_lag as int) by (nonlinear_arith);
        assert((i as int + 1) * 0x1000_0000 == i as int * 0x1000_0000 + 0x1000_0000) by (nonlinear_arith);
        sp = sp + pv[i] as u128;
        i = i + 1;
    }
    proof {
        assert(p.take(k as int) =~= p);
    }
    if sp == 0 {
        return (0, 0);
    }
    let kk = k as u128;
    let srr = sample_rate as u128;
    assert(srr * kk <= 0xFFFF_FFFF * 0xFFFF_FFFF) by (nonlinear_arith)
        requires
            srr <= 0xFFFF_FFFF,
            kk <= 0xFFFF_FFFF,
    ;
    let f0_num = srr * kk * 1000;
    let f0 = f0_num / sp;
    proof {
        let num = f0_num as int;
        if srr < 400 {
            vstd::arithmetic::div_mod::lemma_div_is_ordered_by_denominator(num, 1, sp as int);
            assert(num <= 400 * 0xFFFF_FFFF * 1000) by (nonlinear_arith)
                requires
                    num == srr * kk * 1000,
                    srr < 400,
                    kk <= 0xFFFF_FFFF,
            ;
        } else {
            vstd::arithmetic::div_mod::lemma_div_is_ordered(400, srr as int, 400);
            assert(min_lag >= 1);
            assert(sp >= kk) by (nonlinear_arith)
                requires
                    sp >= kk * (min_lag as int),
                    min_lag >= 1,
                    kk >= 1,
            ;
            vstd::arithmetic::div_mod::lemma_div_is_ordered_by_denominator(num, kk as int, sp as int);
            assert(num == (srr * 1000) * kk) by (nonlinear_arith)
                requires
                    num == srr * kk * 1000,
            ;
            vstd::arithmetic::div_mod::lemma_div_by_multiple(srr as int * 1000, kk as int);
        }
    }
    if k < 2 {
        return (f0 as u64, 0);
    }
    let mut sd: u128 = 0;
    let mut i: usize = 1;
    while i < k
        invariant
            k == pv@.len(),
            k == p.len(),
            k <= MAX_SAMPLES,
            1 <= i <= k,
            forall|t: int| 0 <= t < k ==> pv@[t] as int == #[trigger] p[t],
            forall|t: int| 0 <= t < k ==> min_lag <= #[trigger] pv@[t] < fl,
            fl <= 0x1000_0000,
            sd as int == abs_diff_sum(p.take(i as int)),
            sd <= i as int * 0x1000_0000,
        decreases k - i,
    {
        proof {
            assert(p.take(i as int + 1).drop_last() =~= p.take(i as int));
            assert(pv@[i as int] as int == p[i as int]);
            assert(pv@[i as int - 1] as int == p[i as int - 1]);
        }
        let a = pv[i];
        let b = pv[i - 1];
        let d: u128 = if a >= b { (a - b) as u128 } else { (b - a) as u128 };
        sd = sd + d;
        i = i + 1;
    }
    proof {
        assert(p.take(k as int) =~= p);
    }
    assert(sd * kk <= 0x1000_0000 * 0xFFFF_FFFF * 0xFFFF_FFFF) by (nonlinear_arith)
        requires
            sd <= kk * 0x1000_0000,
            kk <= 0xFFFF_FFFF,
    ;
    let num = sd * kk * 1_000_000;
    assert((kk - 1) * sp <= 0xFFFF_FFFF * 0xFFFF_FFFF * 0x1000_0000) by (nonlinear_arith)
        requires
            sp <= kk * 0x1000_0000,
            kk <= 0xFFFF_FFFF,
            kk >= 2,
    ;
    assert((kk - 1) * sp >= 1) by (nonlinear_arith)
        requires
            sp >= 1,
            kk >= 2,
    ;
    let jit = num / ((kk - 1) * sp);
    let jitter: u64 = if jit > 1_000_000 { 1_000_000 } else { jit as u64 };
    (f0 as u64, jitter)
}

} // verus!
