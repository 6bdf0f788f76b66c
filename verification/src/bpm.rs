//! Tempo estimation: a windowed-RMS energy envelope searched for the
//! autocorrelation lag that best matches a beat period.

use vstd::prelude::*;

use crate::buffer::{mono_at, RawAudioBuffer};
use crate::fixed::{isqrt, lemma_sqrt_floor_is, sqrt_floor};

verus! {

/// A tempo estimate in thousandths of a BPM with a confidence in
/// thousandths.
#[derive(Debug, Clone, Copy)]
pub struct BpmEstimate {
    /// Estimated tempo, milli-BPM.
    pub bpm_milli: u32,
    /// Confidence in [0, 1000].
    pub confidence_milli: u32,
}

/// Envelope hop: half of a ~50 ms analysis window.
pub open spec fn env_hop(rate: int) -> int {
    (rate / 20) / 2
}

/// Number of envelope samples for `n` mono samples at hop `hop`.
pub open spec fn envelope_len(n: int, hop: int) -> int
    recommends
        hop > 0,
{
    (n + hop - 1) / hop
}

/// Sum of squares of `s[start..start+len]`.
pub open spec fn sq_sum(s: Seq<i32>, start: int, len: int) -> int
    decreases len,
{
    if len <= 0 {
        0
    } else {
        sq_sum(s, start, len - 1) + s[start + len - 1] * s[start + len - 1]
    }
}

/// RMS of envelope chunk `i`: the floor square root of the mean square
/// of the hop-sized chunk starting at `i * hop` (the last chunk may be
/// shorter).
pub open spec fn env_at(s: Seq<i32>, hop: int, i: int) -> int
    recommends
        hop > 0,
{
    let start = i * hop;
    let len = if start + hop <= s.len() {
        hop
    } else {
        s.len() - start
    };
    sqrt_floor(sq_sum(s, start, len) / len)
}

/// Sum of the first `k` products `env[i] * env[i + lag]`.
pub open spec fn prod_sum(env: Seq<i32>, lag: int, k: int) -> int
    decreases k,
{
    if k <= 0 {
        0
    } else {
        prod_sum(env, lag, k - 1) + env[k - 1] * env[k - 1 + lag]
    }
}

/// Autocorrelation of the envelope at `lag`: the mean product over the
/// overlapping region, 0 when nothing overlaps.
pub open spec fn corr_at(env: Seq<i32>, lag: int) -> int {
    let n = env.len() - lag;
    if n <= 0 {
        0
    } else {
        prod_sum(env, lag, n) / n
    }
}

/// The first lag in `[lo, hi)` with maximal autocorrelation (earlier
/// lags win ties); `lo` when the range is empty or a single lag.
pub open spec fn best_lag_in(env: Seq<i32>, lo: int, hi: int) -> int
    decreases hi - lo,
{
    if hi <= lo + 1 {
        lo
    } else {
        let p = best_lag_in(env, lo, hi - 1);
        if corr_at(env, hi - 1) > corr_at(env, p) {
            hi - 1
        } else {
            p
        }
    }
}

/// The tempo whose beat period is `lag` envelope hops, milli-BPM.
pub open spec fn lag_bpm_milli(rate: int, hop: int, lag: int) -> int
    recommends
        hop > 0,
        lag > 0,
{
    60000 * rate / (hop * lag)
}

/// `x` clamped into `[lo, hi]`.
pub open spec fn clamp_int(x: int, lo: int, hi: int) -> int
    recommends
        lo <= hi,
{
    if x < lo {
        lo
    } else if x > hi {
        hi
    } else {
        x
    }
}

/// Confidence for a best correlation value: the Q15 correlation mapped
/// by `(c + 1) / 2` onto [500, 1000] thousandths.
pub open spec fn confidence_of(corr: int) -> int {
    (corr / 32768 + 32768) * 1000 / 65536
}


/// The mono mixdown of an interleaved sequence, as a sequence.
pub open spec fn mono_of(s: Seq<i32>, c: int) -> Seq<i32>
    recommends
        c >= 1,
{
    Seq::new((s.len() as int / c) as nat, |i: int| mono_at(s, c, i) as i32)
}

/// The energy envelope of a mono sequence, as a sequence.
pub open spec fn envelope_of(m: Seq<i32>, hop: int) -> Seq<i32>
    recommends
        hop >= 1,
{
    Seq::new(envelope_len(m.len() as int, hop) as nat, |i: int| env_at(m, hop, i) as i32)
}

/// Smallest lag searched: the beat period of the fastest tempo, at
/// least 1 and at most the envelope length.
pub open spec fn search_lag_lo(rate: int, hop: int, max_bpm_milli: int, env_len: int) -> int {
    let raw = 60000 * rate / (hop * max_bpm_milli);
    if raw < 1 {
        1
    } else if raw > env_len {
        env_len
    } else {
        raw
    }
}

/// Largest lag searched: the beat period of the slowest tempo, capped
/// at half the envelope.
pub open spec fn search_lag_hi(rate: int, hop: int, min_bpm_milli: int, env_len: int) -> int {
    let raw = 60000 * rate / (hop * min_bpm_milli);
    if raw < env_len / 2 {
        raw
    } else {
        env_len / 2
    }
}

/// The full tempo-detection result on an interleaved signal: the pair
/// (milli-BPM, milli-confidence).
pub open spec fn detect_result(s: Seq<i32>, c: int, rate: int, min_m: int, max_m: int) -> (int,
    int) {
    let mono = mono_of(s, c);
    let hop = env_hop(rate);
    let env = envelope_of(mono, hop);
    if env.len() < 2 {
        (120000, 0)
    } else {
        let lo = search_lag_lo(rate, hop, max_m, env.len() as int);
        let hi = search_lag_hi(rate, hop, min_m, env.len() as int);
        if lo > hi {
            (clamp_int(lag_bpm_milli(rate, hop, lo), min_m, max_m), 0)
        } else {
            let best = best_lag_in(env, lo, hi + 1);
            (
                clamp_int(lag_bpm_milli(rate, hop, best), min_m, max_m),
                confidence_of(corr_at(env, best)),
            )
        }
    }
}

/// Envelope values are full-scale RMS values.
pub open spec fn env_bounded(env: Seq<i32>) -> bool {
    forall|i: int| 0 <= i < env.len() ==> 0 <= #[trigger] env[i] <= 32768
}

/// Compute the windowed-RMS energy envelope of a mono signal.
pub fn energy_envelope(mono: &Vec<i32>, hop: usize) -> (env: Vec<i32>)
    requires
        0 < hop < 0x10_0000,
        mono.len() <= 0x4000_0000,
        crate::buffer::samples_bounded(mono@),
    ensures
        env.len() == envelope_len(mono.len() as int, hop as int),
        forall|i: int| 0 <= i < env.len() ==> #[trigger] env[i] == env_at(mono@, hop as int, i),
        env_bounded(env@),
{
    let n: usize = mono.len();
    let ghost total = envelope_len(n as int, hop as int);
    proof {
        assert(total * hop >= n && (total - 1) * hop <= n - 1 && 0 <= total <= n)
            by (nonlinear_arith)
            requires
                hop as int >= 1,
                n as int >= 0,
                total == (n as int + hop as int - 1) / (hop as int),
        ;
    }
    let mut env: Vec<i32> = Vec::new();
    proof {
        assert(env.len() == 0);
        assert(0int * hop as int == 0) by (nonlinear_arith);
    }
    let mut start: usize = 0;
    while start < n
        invariant
            0 < hop < 0x10_0000,
            n == mono.len(),
            n <= 0x4000_0000,
            crate::buffer::samples_bounded(mono@),
            total == envelope_len(n as int, hop as int),
            start == env.len() * hop,
            env.len() == 0 || (env.len() - 1) * hop < n,
            env.len() <= total,
            total * hop >= n,
            (total - 1) * hop <= n - 1,
            forall|i: int| 0 <= i < env.len() ==> #[trigger] env[i] == env_at(mono@, hop as int, i),
            env_bounded(env@),
        decreases n + hop - start,
    {
        let ghost ci = env.len() as int;
        let len: usize = if hop <= n - start {
            hop
        } else {
            n - start
        };
        let mut sum: u64 = 0;
        let mut k: usize = 0;
        while k < len
            invariant
                n == mono.len(),
                crate::buffer::samples_bounded(mono@),
                start + len <= n,
                k <= len,
                len <= hop < 0x10_0000,
                sum == sq_sum(mono@, start as int, k as int),
                sum <= k * 0x4000_0000,
            decreases len - k,
        {
            let s: i64 = mono[start + k] as i64;
            proof {
                assert(-32768 <= mono@[start as int + k as int] <= 32768);
                assert(0 <= s * s <= 0x4000_0000) by (nonlinear_arith)
                    requires
                        -32768 <= s <= 32768,
                ;
                assert(sum as int + s * s <= (k as int + 1) * 0x4000_0000) by (nonlinear_arith)
                    requires
                        sum as int <= k as int * 0x4000_0000,
                        0 <= s * s <= 0x4000_0000,
                ;
                assert((k as int + 1) * 0x4000_0000 <= 0x10_0000int * 0x4000_0000)
                    by (nonlinear_arith)
                    requires
                        k as int + 1 <= 0x10_0000,
                ;
            }
            sum = sum + (s * s) as u64;
            k = k + 1;
        }
        let mean: u64 = sum / (len as u64);
        proof {
            assert(sq_sum(mono@, start as int, len as int) / (len as int) <= 0x4000_0000)
                by (nonlinear_arith)
                requires
                    len as int >= 1,
                    0 <= sq_sum(mono@, start as int, len as int) <= len as int * 0x4000_0000,
            ;
        }
        let r: u64 = isqrt(mean);
        proof {
            assert(r as int * r as int <= 0x4000_0000);
            assert(r <= 32768) by (nonlinear_arith)
                requires
                    0 <= r,
                    r as int * r as int <= 0x4000_0000,
            ;
            assert(r == env_at(mono@, hop as int, ci));
            assert(ci * hop + hop == (ci + 1) * hop) by (nonlinear_arith);
            assert(ci + 1 <= total) by (nonlinear_arith)
                requires
                    hop as int >= 1,
                    ci * hop < n,
                    total * hop >= n,
                    (total - 1) * hop <= n - 1,
            ;
        }
        env.push(r as i32);
        proof {
            assert(start + hop <= total * hop) by (nonlinear_arith)
                requires
                    hop as int >= 1,
                    start == ci * hop,
                    ci + 1 <= total,
            ;
            assert(total * hop < n + hop) by (nonlinear_arith)
                requires
                    hop as int >= 1,
                    (total - 1) * hop <= n - 1,
            ;
        }
        start = start + hop;
    }
    proof {
        let m = env.len() as int;
        assert(m == total) by (nonlinear_arith)
            requires
                hop as int >= 1,
                m * hop >= n,
                m == 0 || (m - 1) * hop < n,
                total * hop >= n,
                (total - 1) * hop <= n - 1,
                m <= total,
                n >= 0,
        ;
    }
    env
}

/// Mean product of the envelope with itself shifted by `lag`.
pub fn autocorrelate(env: &Vec<i32>, lag: usize) -> (c: u64)
    requires
        env.len() <= 0x4000_0000,
        lag <= env.len(),
        env_bounded(env@),
    ensures
        c == corr_at(env@, lag as int),
        c <= 0x4000_0000,
{
    let n: usize = env.len() - lag;
    if n == 0 {
        return 0;
    }
    let mut sum: u64 = 0;
    let mut i: usize = 0;
    while i < n
        invariant
            n == env.len() - lag,
            n >= 1,
            env.len() <= 0x4000_0000,
            env_bounded(env@),
            i <= n,
            sum == prod_sum(env@, lag as int, i as int),
            sum <= i * 0x4000_0000,
        decreases n - i,
    {
        let a: i32 = env[i];
        let b: i32 = env[i + lag];
        proof {
            assert(0 <= env@[i as int] <= 32768);
            assert(0 <= env@[i as int + lag as int] <= 32768);
            assert(0 <= a as int * b as int <= 0x4000_0000) by (nonlinear_arith)
                requires
                    0 <= a as int <= 32768,
                    0 <= b as int <= 32768,
            ;
            assert(sum as int + a as int * b as int <= (i as int + 1) * 0x4000_0000)
                by (nonlinear_arith)
                requires
                    sum as int <= i as int * 0x4000_0000,
                    a as int * b as int <= 0x4000_0000,
            ;
            assert((i as int + 1) * 0x4000_0000 <= 0x4000_0000int * 0x4000_0000)
                by (nonlinear_arith)
                requires
                    i as int + 1 <= 0x4000_0000,
            ;
        }
        sum = sum + (a as u64) * (b as u64);
        i = i + 1;
    }
    let c: u64 = sum / (n as u64);
    proof {
        assert(prod_sum(env@, lag as int, n as int) / (n as int) <= 0x4000_0000)
            by (nonlinear_arith)
            requires
                n as int >= 1,
                0 <= prod_sum(env@, lag as int, n as int) <= n as int * 0x4000_0000,
        ;
    }
    c
}

/// Estimate the tempo of raw audio within `[min_bpm_milli, max_bpm_milli]`.
///
/// The energy envelope is scanned over the lag range that covers the BPM
/// range; the first lag with maximal autocorrelation wins. The result is
/// clamped into the requested range whenever the envelope has at least
/// two samples; a degenerate envelope reports 120 BPM with zero
/// confidence.
pub fn detect_bpm(raw: &RawAudioBuffer, min_bpm_milli: u32, max_bpm_milli: u32) -> (est:
    BpmEstimate)
    requires
        raw.wf(),
        40 <= raw.sample_rate <= 1_000_000,
        raw.samples.len() <= 0x4000_0000,
        0 < min_bpm_milli <= max_bpm_milli,
    ensures
        est.bpm_milli as int == detect_result(
            raw.samples@,
            raw.channels as int,
            raw.sample_rate as int,
            min_bpm_milli as int,
            max_bpm_milli as int,
        ).0,
        est.confidence_milli as int == detect_result(
            raw.samples@,
            raw.channels as int,
            raw.sample_rate as int,
            min_bpm_milli as int,
            max_bpm_milli as int,
        ).1,
        est.bpm_milli > 0,
        est.confidence_milli <= 1000,
        envelope_len(
            raw.samples.len() as int / (raw.channels as int),
            env_hop(raw.sample_rate as int),
        ) >= 2 ==> min_bpm_milli <= est.bpm_milli <= max_bpm_milli,
{
    let ghost spec_mono = mono_of(raw.samples@, raw.channels as int);
    let mono: Vec<i32> = raw.to_mono();
    let window: usize = (raw.sample_rate / 20) as usize;
    let hop: usize = window / 2;
    proof {
        assert(env_hop(raw.sample_rate as int) >= 1);
        assert(mono.len() <= raw.samples.len()) by (nonlinear_arith)
            requires
                mono.len() == raw.samples.len() as int / (raw.channels as int),
                raw.channels as int >= 1,
                raw.samples.len() >= 0,
        ;
        assert(mono@ =~= spec_mono);
    }
    let env: Vec<i32> = energy_envelope(&mono, hop);
    proof {
        assert(env@ =~= envelope_of(spec_mono, hop as int));
        assert(env.len() <= mono.len()) by (nonlinear_arith)
            requires
                hop as int >= 1,
                env.len() == (mono.len() as int + hop as int - 1) / (hop as int),
                mono.len() >= 0,
        ;
    }
    if env.len() < 2 {
        return BpmEstimate { bpm_milli: 120_000, confidence_milli: 0 };
    }

    // Lag bounds from the BPM range: lag = 60 s / bpm * envelope rate.
    let rate64: u64 = raw.sample_rate as u64;
    let hop64: u64 = hop as u64;
    proof {
        lemma_lag_div_bounds(hop64 as int, max_bpm_milli as int);
        lemma_lag_div_bounds(hop64 as int, min_bpm_milli as int);
    }
    let min_lag_raw: u64 = 60_000 * rate64 / (hop64 * (max_bpm_milli as u64));
    let min_lag: usize = if min_lag_raw < 1 {
        1
    } else if min_lag_raw > env.len() as u64 {
        env.len()
    } else {
        min_lag_raw as usize
    };
    let max_lag_raw: u64 = 60_000 * rate64 / (hop64 * (min_bpm_milli as u64));
    let half: usize = env.len() / 2;
    let max_lag: usize = if max_lag_raw < half as u64 {
        max_lag_raw as usize
    } else {
        half
    };
    proof {
        assert(min_lag as int == search_lag_lo(
            raw.sample_rate as int,
            hop as int,
            max_bpm_milli as int,
            env.len() as int,
        ));
        assert(max_lag as int == search_lag_hi(
            raw.sample_rate as int,
            hop as int,
            min_bpm_milli as int,
            env.len() as int,
        ));
    }

    if min_lag > max_lag {
        // Empty search range: report the fastest searched period with no
        // confidence.
        proof {
            lemma_lag_div_bounds(hop64 as int, min_lag as int);
        }
        let bpm_raw: u64 = 60_000 * rate64 / (hop64 * (min_lag as u64));
        let bpm_milli: u32 = clamp_u64(bpm_raw, min_bpm_milli, max_bpm_milli);
        return BpmEstimate { bpm_milli, confidence_milli: 0 };
    }

    let mut best_lag: usize = min_lag;
    let mut best_corr: u64 = autocorrelate(&env, best_lag);
    let mut lag: usize = min_lag + 1;
    while lag <= max_lag
        invariant
            env.len() <= 0x4000_0000,
            env_bounded(env@),
            1 <= min_lag <= env.len(),
            max_lag <= env.len(),
            min_lag <= best_lag,
            best_lag < lag,
            min_lag + 1 <= lag,
            lag <= max_lag + 1,
            best_lag == best_lag_in(env@, min_lag as int, lag as int),
            best_corr == corr_at(env@, best_lag as int),
            best_corr <= 0x4000_0000,
        decreases max_lag + 1 - lag,
    {
        let c: u64 = autocorrelate(&env, lag);
        if c > best_corr {
            best_corr = c;
            best_lag = lag;
        }
        lag = lag + 1;
    }

    // Convert the winning lag back to a tempo and clamp into range.
    proof {
        lemma_lag_div_bounds(hop64 as int, best_lag as int);
    }
    let bpm_raw: u64 = 60_000 * rate64 / (hop64 * (best_lag as u64));
    let bpm_milli: u32 = clamp_u64(bpm_raw, min_bpm_milli, max_bpm_milli);
    let conf_q15: u64 = best_corr / 32768;
    let confidence_milli: u32 = ((conf_q15 + 32768) * 1000 / 65536) as u32;
    proof {
        assert(conf_q15 <= 32768) by (nonlinear_arith)
            requires
                best_corr <= 0x4000_0000,
                conf_q15 == best_corr as int / 32768,
        ;
        assert((conf_q15 + 32768) * 1000 / 65536 <= 1000) by (nonlinear_arith)
            requires
                0 <= conf_q15 <= 32768,
        ;
    }
    BpmEstimate { bpm_milli, confidence_milli }
}

/// A lag-conversion denominator is positive and fits comfortably in a
/// 64-bit word.
proof fn lemma_lag_div_bounds(hop: int, other: int)
    requires
        1 <= hop < 0x10_0000,
        1 <= other <= 0x1_0000_0000,
    ensures
        1 <= hop * other,
        hop * other < 0x10_0000_0000_0000,
{
    assert(1 <= hop * other && hop * other < 0x10_0000_0000_0000) by (nonlinear_arith)
        requires
            1 <= hop < 0x10_0000,
            1 <= other <= 0x1_0000_0000,
    ;
}

/// Clamp a wide value into an inclusive `u32` range.
fn clamp_u64(x: u64, lo: u32, hi: u32) -> (r: u32)
    requires
        lo <= hi,
    ensures
        r as int == clamp_int(x as int, lo as int, hi as int),
{
    if x < lo as u64 {
        lo
    } else if x > hi as u64 {
        hi
    } else {
        x as u32
    }
}

} // verus!
