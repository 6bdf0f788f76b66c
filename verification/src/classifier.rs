//! Content classification: cheap spectral features over a mono mixdown
//! and a thresholded decision rule that tells music from speech and
//! silence.

use vstd::prelude::*;

use crate::bpm::{envelope_len, sq_sum};
use crate::buffer::RawAudioBuffer;
use crate::fixed::{isqrt, sqrt_floor};

verus! {

/// What a captured clip most likely contains.
#[derive(Debug, Clone, Copy, PartialEq, Eq, Structural)]
pub enum ContentType {
    /// Likely music content.
    Music,
    /// Likely speech/talk content.
    Speech,
    /// Silence or very low audio.
    Silence,
    /// Unable to classify confidently.
    Unknown,
}

impl ContentType {
    /// Music and uncertain content are accepted; uncertain content gets
    /// the benefit of the doubt so good stations are not rejected.
    pub fn is_music(&self) -> (r: bool)
        ensures
            r == (*self == ContentType::Music || *self == ContentType::Unknown),
    {
        matches!(self, ContentType::Music | ContentType::Unknown)
    }
}

/// Feature values measured on the mono mixdown.
///
/// Amplitude-like values are Q15 (32768 = 1.0); ratio-like values are
/// thousandths.
#[derive(Debug, Clone)]
pub struct ClassificationDetails {
    /// RMS level of the whole clip, Q15.
    pub rms_q15: i32,
    /// Mean zero-crossing rate across windows, Q15.
    pub zcr_mean_q15: i32,
    /// Standard deviation of the zero-crossing rate across windows, Q15.
    pub zcr_std_q15: i32,
    /// Normalized amplitude-histogram entropy, thousandths.
    pub flatness_milli: u32,
    /// Coefficient of variation of per-frame energy, thousandths.
    pub energy_cv_milli: u32,
    /// Fraction of frames below the silence threshold, thousandths.
    pub silent_ratio_milli: u32,
}

/// A classification with its confidence and the measured features.
#[derive(Debug, Clone)]
pub struct ClassificationResult {
    /// The decided content type.
    pub content_type: ContentType,
    /// Decision confidence, thousandths.
    pub confidence_milli: u32,
    /// The features the decision was made from.
    pub details: ClassificationDetails,
}

/// Are the features well formed: every value in its range.
pub open spec fn details_wf(d: ClassificationDetails) -> bool {
    &&& 0 <= d.rms_q15 <= 32768
    &&& 0 <= d.zcr_mean_q15 <= 32768
    &&& 0 <= d.zcr_std_q15 <= 32768
    &&& d.flatness_milli <= 1000
    &&& d.energy_cv_milli <= 1000
    &&& d.silent_ratio_milli <= 1000
}

/// Speech score: high zero-crossing variation, high flatness and high
/// energy variation each add weight, capped at 1000.
pub open spec fn speech_score_milli(c: AudioClassifier, d: ClassificationDetails) -> int {
    let zcr = if d.zcr_std_q15 * 1000 > c.zcr_std_milli * 32768 {
        350int
    } else if d.zcr_std_q15 * 2000 > c.zcr_std_milli * 32768 {
        150int
    } else {
        0int
    };
    let flat = if d.flatness_milli > c.flatness_milli {
        350int
    } else if d.flatness_milli * 10 > c.flatness_milli * 7 {
        150int
    } else {
        0int
    };
    let energy = if d.energy_cv_milli > 300 {
        300int
    } else if d.energy_cv_milli > 150 {
        150int
    } else {
        0int
    };
    let sum = zcr + flat + energy;
    if sum > 1000 {
        1000
    } else {
        sum
    }
}

/// Music score: steady zero crossings, tonal flatness, moderate
/// dynamics, a healthy level and few silent frames each add weight,
/// capped at 1000.
pub open spec fn music_score_milli(c: AudioClassifier, d: ClassificationDetails) -> int {
    let zcr = if d.zcr_std_q15 * 2000 < c.zcr_std_milli * 32768 {
        300int
    } else {
        0int
    };
    let flat = if d.flatness_milli * 2 < c.flatness_milli {
        300int
    } else {
        0int
    };
    let energy = if 50 < d.energy_cv_milli && d.energy_cv_milli < 250 {
        200int
    } else {
        0int
    };
    let level = if d.rms_q15 * 20 > 32768 {
        200int
    } else {
        0int
    };
    let silent = if d.silent_ratio_milli < 100 {
        200int
    } else {
        0int
    };
    let sum = zcr + flat + energy + level + silent;
    if sum > 1000 {
        1000
    } else {
        sum
    }
}

/// The decision rule over measured features: silence first, then the
/// larger of the speech and music scores, else unknown.
pub open spec fn decide(c: AudioClassifier, d: ClassificationDetails) -> (ContentType, int) {
    if d.rms_q15 * 1000 < c.silence_rms_milli * 32768 || d.silent_ratio_milli
        > c.silence_ratio_milli {
        (ContentType::Silence, 900)
    } else {
        let s = speech_score_milli(c, d);
        let m = music_score_milli(c, d);
        if s > 600 && s > m {
            let margin = if s - m < 500 {
                s - m
            } else {
                500int
            };
            (ContentType::Speech, margin + 500)
        } else if m > 500 {
            let gap = if m - s < 0 {
                0int
            } else {
                m - s
            };
            let margin = if gap < 400 {
                gap
            } else {
                400int
            };
            (ContentType::Music, margin + 600)
        } else {
            (ContentType::Unknown, 500)
        }
    }
}

/// A decision's confidence always lands in [500, 1000].
pub proof fn lemma_decide_confidence(c: AudioClassifier, d: ClassificationDetails)
    ensures
        500 <= decide(c, d).1 <= 1000,
{
}

/// RMS of a whole signal: the floor square root of the mean square, Q15.
pub open spec fn rms_of(s: Seq<i32>) -> int
    recommends
        s.len() > 0,
{
    sqrt_floor(sq_sum(s, 0, s.len() as int) / s.len() as int)
}

/// Number of chunks of `fs` samples (the last may be shorter) whose RMS
/// is below the 0.01 silence threshold, among the first `k` chunks.
pub open spec fn silent_chunks(s: Seq<i32>, fs: int, k: int) -> int
    recommends
        fs > 0,
    decreases k,
{
    if k <= 0 {
        0
    } else {
        let start = (k - 1) * fs;
        let len = if start + fs <= s.len() {
            fs
        } else {
            s.len() - start
        };
        silent_chunks(s, fs, k - 1) + if sqrt_floor(sq_sum(s, start, len) / len) * 100 < 32768 {
            1int
        } else {
            0int
        }
    }
}

/// The silent-frame ratio in thousandths: silent chunks over all chunks
/// at the energy frame size.
pub open spec fn silent_ratio_of(s: Seq<i32>, fs: int) -> int
    recommends
        fs > 0,
        s.len() > 0,
{
    silent_chunks(s, fs, envelope_len(s.len() as int, fs)) * 1000 / envelope_len(
        s.len() as int,
        fs,
    )
}

/// The frame size used for per-frame energy statistics: about 100
/// frames, at least 512 samples.
pub open spec fn energy_frame_size(n: int) -> int {
    if n / 100 > 512 {
        n / 100
    } else {
        512
    }
}


/// Sum of the first `k` values of an integer sequence.
pub open spec fn int_seq_sum(q: Seq<int>, k: int) -> int
    decreases k,
{
    if k <= 0 {
        0
    } else {
        int_seq_sum(q, k - 1) + q[k - 1]
    }
}

/// Sum of squared deviations from `mean` over the first `k` values.
pub open spec fn sqdiff_sum(q: Seq<int>, mean: int, k: int) -> int
    decreases k,
{
    if k <= 0 {
        0
    } else {
        let d = if q[k - 1] >= mean {
            q[k - 1] - mean
        } else {
            mean - q[k - 1]
        };
        sqdiff_sum(q, mean, k - 1) + d * d
    }
}

/// Sum of squared deviations from `mean`, each scaled down by one Q30
/// unit, over the first `k` values.
pub open spec fn scaled_sqdiff_sum(q: Seq<int>, mean: int, k: int) -> int
    decreases k,
{
    if k <= 0 {
        0
    } else {
        let d = if q[k - 1] >= mean {
            q[k - 1] - mean
        } else {
            mean - q[k - 1]
        };
        scaled_sqdiff_sum(q, mean, k - 1) + d * d / 0x4000_0000
    }
}

/// Mean energy (Q30) of chunk `i` at frame size `fs` (the last chunk
/// may be shorter).
pub open spec fn energy_at(s: Seq<i32>, fs: int, i: int) -> int
    recommends
        fs > 0,
{
    let start = i * fs;
    let len = if start + fs <= s.len() {
        fs
    } else {
        s.len() - start
    };
    sq_sum(s, start, len) / len
}

/// The per-frame energies of a signal at its energy frame size.
pub open spec fn energies_of(s: Seq<i32>) -> Seq<int> {
    let fs = energy_frame_size(s.len() as int);
    Seq::new(envelope_len(s.len() as int, fs) as nat, |i: int| energy_at(s, fs, i))
}

/// Coefficient of variation of per-frame energy, thousandths, capped at
/// 1000; 0 for nearly silent signals.
pub open spec fn energy_cv_of(s: Seq<i32>) -> int
    recommends
        s.len() > 0,
{
    let q = energies_of(s);
    let count = q.len() as int;
    let mean = int_seq_sum(q, count) / count;
    if mean * 10000 < 0x4000_0000 {
        0
    } else {
        let var = scaled_sqdiff_sum(q, mean, count) / count;
        let std = sqrt_floor(var);
        let cv = std * 32768 * 1000 / mean;
        if cv > 1000 {
            1000
        } else {
            cv
        }
    }
}


/// Number of sign changes between adjacent samples among the first
/// `len` samples of the chunk at `start`.
pub open spec fn crossings_in(s: Seq<i32>, start: int, len: int) -> int
    decreases len,
{
    if len <= 1 {
        0
    } else {
        crossings_in(s, start, len - 1) + if (s[start + len - 2] >= 0) != (s[start + len - 1]
            >= 0) {
            1int
        } else {
            0int
        }
    }
}

/// The window size used for zero-crossing statistics: about 50 windows,
/// at least 1024 samples.
pub open spec fn zcr_window_size(n: int) -> int {
    if n / 50 > 1024 {
        n / 50
    } else {
        1024
    }
}

/// Zero-crossing rate (Q15) of window `i` at window size `w`.
pub open spec fn zcr_rate_at(s: Seq<i32>, w: int, i: int) -> int
    recommends
        w > 0,
{
    let start = i * w;
    let len = if start + w <= s.len() {
        w
    } else {
        s.len() - start
    };
    crossings_in(s, start, len) * 32768 / len
}

/// Number of windows that enter the statistics: all of them, except a
/// trailing window of fewer than two samples.
pub open spec fn zcr_rates_len(n: int, w: int) -> int
    recommends
        w > 0,
{
    let count = envelope_len(n, w);
    if count >= 1 && n - (count - 1) * w < 2 {
        count - 1
    } else {
        count
    }
}

/// The per-window zero-crossing rates of a signal.
pub open spec fn zcr_rates(s: Seq<i32>, w: int) -> Seq<int>
    recommends
        w > 0,
{
    Seq::new(zcr_rates_len(s.len() as int, w) as nat, |i: int| zcr_rate_at(s, w, i))
}

/// Mean and standard deviation (both Q15) of the windowed
/// zero-crossing rates; (0, 0) for signals too short to measure.
pub open spec fn zcr_stats_of(s: Seq<i32>) -> (int, int) {
    if s.len() < 2 {
        (0, 0)
    } else {
        let q = zcr_rates(s, zcr_window_size(s.len() as int));
        if q.len() == 0 {
            (0, 0)
        } else {
            let mean = int_seq_sum(q, q.len() as int) / q.len() as int;
            (mean, sqrt_floor(sqdiff_sum(q, mean, q.len() as int) / q.len() as int))
        }
    }
}

/// Compute the RMS level of a signal, Q15.
pub fn calculate_rms(mono: &Vec<i32>) -> (rms: i32)
    requires
        mono.len() > 0,
        mono.len() <= 0x4000_0000,
        crate::buffer::samples_bounded(mono@),
    ensures
        rms == rms_of(mono@),
        0 <= rms <= 32768,
{
    let n: usize = mono.len();
    let mut sum: u64 = 0;
    let mut k: usize = 0;
    while k < n
        invariant
            n == mono.len(),
            n <= 0x4000_0000,
            crate::buffer::samples_bounded(mono@),
            k <= n,
            sum == sq_sum(mono@, 0, k as int),
            sum <= k * 0x4000_0000,
        decreases n - k,
    {
        let s: i64 = mono[k] as i64;
        proof {
            assert(-32768 <= mono@[k as int] <= 32768);
            assert(0 <= s * s <= 0x4000_0000) by (nonlinear_arith)
                requires
                    -32768 <= s <= 32768,
            ;
            assert(sum as int + s * s <= (k as int + 1) * 0x4000_0000) by (nonlinear_arith)
                requires
                    sum as int <= k as int * 0x4000_0000,
                    0 <= s * s <= 0x4000_0000,
            ;
            assert((k as int + 1) * 0x4000_0000 <= 0x4000_0000int * 0x4000_0000)
                by (nonlinear_arith)
                requires
                    k as int + 1 <= 0x4000_0000,
            ;
        }
        sum = sum + (s * s) as u64;
        k = k + 1;
    }
    let mean: u64 = sum / (n as u64);
    proof {
        assert(sq_sum(mono@, 0, n as int) / (n as int) <= 0x4000_0000) by (nonlinear_arith)
            requires
                n as int >= 1,
                0 <= sq_sum(mono@, 0, n as int) <= n as int * 0x4000_0000,
        ;
    }
    let r: u64 = isqrt(mean);
    proof {
        assert(r as int * r as int <= 0x4000_0000);
        assert(r <= 32768) by (nonlinear_arith)
            requires
                0 <= r,
                r as int * r as int <= 0x4000_0000,
        ;
    }
    r as i32
}


/// Floor of the base-2 logarithm.
pub open spec fn ilog2(x: int) -> int
    decreases x,
{
    if x < 2 {
        0
    } else {
        1 + ilog2(x / 2)
    }
}

/// `ilog2` names the unique power-of-two window holding `x`.
pub proof fn lemma_ilog2_bounds(x: int)
    requires
        x >= 1,
    ensures
        ilog2(x) >= 0,
        vstd::arithmetic::power2::pow2(ilog2(x) as nat) <= x,
        x < vstd::arithmetic::power2::pow2((ilog2(x) + 1) as nat),
    decreases x,
{
    if x < 2 {
        vstd::arithmetic::power2::lemma2_to64();
    } else {
        lemma_ilog2_bounds(x / 2);
        let k = ilog2(x / 2);
        vstd::arithmetic::power2::lemma_pow2_unfold((k + 1) as nat);
        vstd::arithmetic::power2::lemma_pow2_unfold((k + 2) as nat);
        assert(2 * (x / 2) <= x && x <= 2 * (x / 2) + 1) by (nonlinear_arith)
            requires
                x >= 2,
        ;
    }
}

/// Any power-of-two sandwich pins `ilog2`.
pub proof fn lemma_ilog2_unique(x: int, k: int)
    requires
        x >= 1,
        k >= 0,
        vstd::arithmetic::power2::pow2(k as nat) <= x,
        x < 2 * vstd::arithmetic::power2::pow2(k as nat),
    ensures
        ilog2(x) == k,
{
    lemma_ilog2_bounds(x);
    let il = ilog2(x);
    vstd::arithmetic::power2::lemma_pow2_unfold((k + 1) as nat);
    vstd::arithmetic::power2::lemma_pow2_unfold((il + 1) as nat);
    if il < k {
        if il + 1 < k {
            vstd::arithmetic::power2::lemma_pow2_strictly_increases((il + 1) as nat, k as nat);
        }
        assert(false);
    }
    if il > k {
        if k + 1 < il {
            vstd::arithmetic::power2::lemma_pow2_strictly_increases((k + 1) as nat, il as nat);
        }
        assert(false);
    }
}

/// The Q16 mantissa of `x`: `x` scaled into [65536, 131072).
pub open spec fn log2_mantissa(x: int) -> int
    recommends
        x >= 1,
{
    x * 65536 / (vstd::arithmetic::power2::pow2(ilog2(x) as nat) as int)
}

/// One mantissa-squaring step: square, renormalize, and shift the next
/// binary digit of the fraction in.
pub open spec fn log2_step(f: int, m: int) -> (int, int) {
    let sq = m * m / 65536;
    if sq >= 131072 {
        (2 * f + 1, sq / 2)
    } else {
        (2 * f, sq)
    }
}

/// The fraction and mantissa after `j` squaring steps from `m`.
pub open spec fn log2_steps(m: int, j: int) -> (int, int)
    decreases j,
{
    if j <= 0 {
        (0, m)
    } else {
        let prev = log2_steps(m, j - 1);
        log2_step(prev.0, prev.1)
    }
}

/// The value `log2_q16` computes: the exact integer part and sixteen
/// binary digits of the mantissa's logarithm.
pub open spec fn log2_q16_of(x: int) -> int
    recommends
        x >= 1,
{
    ilog2(x) * 65536 + log2_steps(log2_mantissa(x), 16).0
}


/// Absolute value.
pub open spec fn abs_val(v: int) -> int {
    if v < 0 {
        -v
    } else {
        v
    }
}

/// Peak absolute amplitude among the first `k` samples.
pub open spec fn max_abs_of(s: Seq<i32>, k: int) -> int
    decreases k,
{
    if k <= 0 {
        0
    } else {
        let m = max_abs_of(s, k - 1);
        let a = abs_val(s[k - 1] as int);
        if a > m {
            a
        } else {
            m
        }
    }
}

/// The histogram bin (0..=19) of a sample at peak `max`.
pub open spec fn bin_of(v: int, max: int) -> int
    recommends
        max >= 1,
{
    let b = abs_val(v) * 19 / max;
    if b > 19 {
        19
    } else {
        b
    }
}

/// Number of the first `k` samples whose bin is `b`.
pub open spec fn hist_count(s: Seq<i32>, max: int, b: int, k: int) -> int
    decreases k,
{
    if k <= 0 {
        0
    } else {
        hist_count(s, max, b, k - 1) + if bin_of(s[k - 1] as int, max) == b {
            1int
        } else {
            0int
        }
    }
}

/// Sum of `count * log2(count)` (Q16) over the occupied bins below
/// `bidx`.
pub open spec fn weighted_log_sum(s: Seq<i32>, max: int, bidx: int) -> int
    decreases bidx,
{
    if bidx <= 0 {
        0
    } else {
        let c = hist_count(s, max, bidx - 1, s.len() as int);
        weighted_log_sum(s, max, bidx - 1) + if c > 0 {
            c * log2_q16_of(c)
        } else {
            0int
        }
    }
}

/// The spectral-flatness proxy: normalized entropy of the 20-bin
/// amplitude histogram, in thousandths. Nearly silent signals are
/// maximally flat.
pub open spec fn flatness_of(s: Seq<i32>) -> int
    recommends
        s.len() > 0,
{
    let n = s.len() as int;
    let max = max_abs_of(s, n);
    if max * 1000 < 32768 {
        1000
    } else {
        let lg_n = log2_q16_of(n);
        let mean_term = weighted_log_sum(s, max, 20) / n;
        let h = if lg_n > mean_term {
            lg_n - mean_term
        } else {
            0int
        };
        let scaled = h * 1000 / log2_q16_of(20);
        if scaled > 1000 {
            1000
        } else {
            scaled
        }
    }
}

/// Base-2 logarithm in Q16 fixed point, by mantissa squaring.
///
/// The integer part is exact; the fractional part carries 16 binary
/// digits of the mantissa's logarithm.
pub fn log2_q16(x: u64) -> (r: u64)
    requires
        1 <= x < 0x1_0000_0000,
    ensures
        r < 0x20_0000,
        r as int == log2_q16_of(x as int),
        x == 1 ==> r == 0,
        x >= 2 ==> r >= 65536,
{
    let mut il: u32 = 0;
    let mut p: u64 = 1;
    let mut y: u64 = x;
    proof {
        vstd::arithmetic::power2::lemma2_to64();
    }
    while y >= 2
        invariant
            1 <= x < 0x1_0000_0000,
            p == vstd::arithmetic::power2::pow2(il as nat),
            y == x as int / p as int,
            1 <= y,
            1 <= p <= x,
            il < 32,
            il >= 1 || y == x,
        decreases y,
    {
        proof {
            assert(2 * p <= x && x as int / (p as int) / 2 == x as int / (2 * p as int) && x as int
                / (2 * p as int) < x as int / (p as int)) by (nonlinear_arith)
                requires
                    p >= 1,
                    x >= 1,
                    y == x as int / p as int,
                    y >= 2,
            ;
            vstd::arithmetic::power2::lemma_pow2_unfold((il + 1) as nat);
            vstd::arithmetic::power2::lemma2_to64();
            if il + 1 >= 32 {
                if il + 1 > 32 {
                    vstd::arithmetic::power2::lemma_pow2_strictly_increases(32, (il + 1) as nat);
                }
                assert(false);
            }
        }
        y = y / 2;
        p = p * 2;
        il = il + 1;
    }
    proof {
        assert(p <= x && x < 2 * p) by (nonlinear_arith)
            requires
                p >= 1,
                x as int / p as int == 1,
        ;
        lemma_ilog2_unique(x as int, il as int);
    }
    // Q16 mantissa in [65536, 131072).
    proof {
        assert(x * 65536 < 0x1_0000_0000int * 65536) by (nonlinear_arith)
            requires
                x < 0x1_0000_0000,
                x >= 0,
        ;
    }
    let mut m: u64 = x * 65536 / p;
    proof {
        assert(65536 <= x as int * 65536 / (p as int) && x as int * 65536 / (p as int) < 131072)
            by (nonlinear_arith)
            requires
                p as int >= 1,
                p <= x,
                (x as int) < 2 * p as int,
        ;
        assert(m as int == log2_mantissa(x as int));
    }
    let ghost m0: int = m as int;
    let mut frac: u64 = 0;
    let mut j: u32 = 0;
    proof {
        vstd::arithmetic::power2::lemma2_to64();
    }
    while j < 16
        invariant
            j <= 16,
            65536 <= m < 131072,
            frac < vstd::arithmetic::power2::pow2(j as nat),
            frac as int == log2_steps(m0, j as int).0,
            m as int == log2_steps(m0, j as int).1,
            il < 32,
            x == 1 ==> il == 0 && m == 65536 && frac == 0,
        decreases 16 - j,
    {
        proof {
            vstd::arithmetic::power2::lemma2_to64();
            if j < 16 {
                vstd::arithmetic::power2::lemma_pow2_strictly_increases(j as nat, 16);
            }
            assert(frac < 65536);
            assert(m * m < 131072 * 131072) by (nonlinear_arith)
                requires
                    0 <= m < 131072,
            ;
            assert(65536 * 65536 / 65536 <= m * m / 65536 && m * m / 65536 < 131072int * 131072
                / 65536) by (nonlinear_arith)
                requires
                    65536 <= m < 131072,
            ;
            vstd::arithmetic::power2::lemma_pow2_unfold((j + 1) as nat);
        }
        let sq: u64 = m * m / 65536;
        if sq >= 131072 {
            m = sq / 2;
            frac = frac * 2 + 1;
        } else {
            m = sq;
            frac = frac * 2;
        }
        j = j + 1;
    }
    proof {
        vstd::arithmetic::power2::lemma2_to64();
    }
    (il as u64) * 65536 + frac
}

/// Spectral-flatness proxy: the normalized entropy of a 20-bin histogram
/// of absolute amplitudes, in thousandths. High values are noise-like,
/// low values tonal.
pub fn calculate_flatness(mono: &Vec<i32>) -> (flat: u32)
    requires
        mono.len() > 0,
        mono.len() <= 0x4000_0000,
        crate::buffer::samples_bounded(mono@),
    ensures
        flat <= 1000,
        flat as int == flatness_of(mono@),
{
    let n: usize = mono.len();
    // Peak absolute amplitude.
    let mut max_abs: i32 = 0;
    let mut k: usize = 0;
    while k < n
        invariant
            n == mono.len(),
            crate::buffer::samples_bounded(mono@),
            k <= n,
            0 <= max_abs <= 32768,
            max_abs as int == max_abs_of(mono@, k as int),
        decreases n - k,
    {
        proof {
            assert(-32768 <= mono@[k as int] <= 32768);
        }
        let a: i32 = if mono[k] < 0 {
            -mono[k]
        } else {
            mono[k]
        };
        if a > max_abs {
            max_abs = a;
        }
        k = k + 1;
    }
    // Near-silent audio is maximally flat.
    if (max_abs as u64) * 1000 < 32768 {
        return 1000;
    }
    // Histogram of normalized amplitudes over 20 bins.
    let mut hist: Vec<u64> = Vec::new();
    let mut b: usize = 0;
    while b < 20
        invariant
            hist.len() == b,
            b <= 20,
            forall|i: int| 0 <= i < b ==> #[trigger] hist[i] == 0,
        decreases 20 - b,
    {
        hist.push(0);
        b = b + 1;
    }
    let ghost maxg: int = max_abs as int;
    let mut k2: usize = 0;
    proof {
        assert(forall|t: int| 0 <= t < 20 ==> #[trigger] hist[t] as int == hist_count(
            mono@,
            maxg,
            t,
            0,
        ));
    }
    while k2 < n
        invariant
            n == mono.len(),
            n <= 0x4000_0000,
            crate::buffer::samples_bounded(mono@),
            k2 <= n,
            1 <= max_abs <= 32768,
            maxg == max_abs as int,
            hist.len() == 20,
            forall|t: int| 0 <= t < 20 ==> #[trigger] hist[t] as int == hist_count(
                mono@,
                maxg,
                t,
                k2 as int,
            ),
            forall|t: int| 0 <= t < 20 ==> #[trigger] hist[t] <= k2,
        decreases n - k2,
    {
        proof {
            assert(-32768 <= mono@[k2 as int] <= 32768);
        }
        let a: i32 = if mono[k2] < 0 {
            -mono[k2]
        } else {
            mono[k2]
        };
        let a64: u64 = a as u64;
        let bin_raw: u64 = a64 * 19 / (max_abs as u64);
        let bin: usize = if bin_raw > 19 {
            19
        } else {
            bin_raw as usize
        };
        proof {
            assert(bin as int == bin_of(mono@[k2 as int] as int, maxg));
        }
        let c: u64 = hist[bin];
        let ghost hpre = hist@;
        hist.set(bin, c + 1);
        proof {
            assert(hist@ == hpre.update(bin as int, (c + 1) as u64));
            assert forall|t: int| 0 <= t < 20 implies #[trigger] hist[t] as int == hist_count(
                mono@,
                maxg,
                t,
                k2 as int + 1,
            ) by {
                if t != bin {
                    assert(hist@[t] == hpre[t]);
                }
            }
        }
        k2 = k2 + 1;
    }
    // Normalized entropy over occupied bins, in base 2 (the base cancels
    // in the normalization).
    let lg_n: u64 = log2_q16(n as u64);
    let mut weighted: u64 = 0;
    let mut b2: usize = 0;
    while b2 < 20
        invariant
            n == mono.len(),
            1 <= n <= 0x4000_0000,
            hist.len() == 20,
            maxg == max_abs as int,
            forall|t: int| 0 <= t < 20 ==> #[trigger] hist[t] as int == hist_count(
                mono@,
                maxg,
                t,
                n as int,
            ),
            forall|t: int| 0 <= t < 20 ==> #[trigger] hist[t] <= 0x4000_0000,
            b2 <= 20,
            weighted as int == weighted_log_sum(mono@, maxg, b2 as int),
            weighted <= b2 * 0x4000_0000 * 0x20_0000,
        decreases 20 - b2,
    {
        let c: u64 = hist[b2];
        if c > 0 {
            let lg_c: u64 = log2_q16(c);
            proof {
                assert(c * lg_c <= 0x4000_0000int * 0x20_0000) by (nonlinear_arith)
                    requires
                        0 <= c <= 0x4000_0000,
                        0 <= lg_c <= 0x20_0000,
                ;
                assert(weighted as int + c * lg_c <= (b2 as int + 1) * 0x4000_0000 * 0x20_0000
                    && (b2 as int + 1) * 0x4000_0000 * 0x20_0000 <= 20 * 0x4000_0000 * 0x20_0000)
                    by (nonlinear_arith)
                    requires
                        weighted as int <= b2 as int * 0x4000_0000 * 0x20_0000,
                        0 <= c * lg_c <= 0x4000_0000int * 0x20_0000,
                        b2 as int + 1 <= 20,
                ;
            }
            weighted = weighted + c * lg_c;
        } else {
            proof {
                assert(weighted as int <= (b2 as int + 1) * 0x4000_0000 * 0x20_0000)
                    by (nonlinear_arith)
                    requires
                        weighted as int <= b2 as int * 0x4000_0000 * 0x20_0000,
                ;
            }
        }
        b2 = b2 + 1;
    }
    let mean_term: u64 = weighted / (n as u64);
    let h: u64 = if lg_n > mean_term {
        lg_n - mean_term
    } else {
        0
    };
    let denom: u64 = log2_q16(20);
    let scaled: u64 = h * 1000 / denom;
    if scaled > 1000 {
        1000
    } else {
        scaled as u32
    }
}

/// Zero-crossing statistics over windows: the mean rate and its
/// standard deviation, both Q15.
pub fn calculate_zcr_stats(mono: &Vec<i32>) -> (r: (i32, i32))
    requires
        mono.len() <= 0x4000_0000,
        crate::buffer::samples_bounded(mono@),
    ensures
        0 <= r.0 <= 32768,
        0 <= r.1 <= 32768,
        r.0 as int == zcr_stats_of(mono@).0,
        r.1 as int == zcr_stats_of(mono@).1,
{
    let n: usize = mono.len();
    if n < 2 {
        return (0, 0);
    }
    let w: usize = if n / 50 > 1024 {
        n / 50
    } else {
        1024
    };
    let ghost total = envelope_len(n as int, w as int);
    let ghost rl = zcr_rates_len(n as int, w as int);
    let ghost rq = zcr_rates(mono@, w as int);
    proof {
        assert(total * w >= n && (total - 1) * w <= n - 1 && 1 <= total <= n) by (nonlinear_arith)
            requires
                w as int >= 1,
                n as int >= 1,
                total == (n as int + w as int - 1) / (w as int),
        ;
        assert(0int * w as int == 0) by (nonlinear_arith);
    }
    // Per-window zero-crossing rates, Q15.
    let mut rates: Vec<u64> = Vec::new();
    let mut start: usize = 0;
    let ghost mut ci: int = 0;
    while start < n
        invariant
            n == mono.len(),
            2 <= n <= 0x4000_0000,
            crate::buffer::samples_bounded(mono@),
            1024 <= w <= 0x4000_0000,
            total == envelope_len(n as int, w as int),
            rl == zcr_rates_len(n as int, w as int),
            rq == zcr_rates(mono@, w as int),
            rl == total || rl == total - 1,
            0 <= ci <= total,
            start == ci * w,
            ci == 0 || (ci - 1) * w < n,
            total * w >= n,
            (total - 1) * w <= n - 1,
            ci < total ==> rates.len() == ci,
            ci == total ==> rates.len() == rl,
            forall|i: int| 0 <= i < rates.len() ==> #[trigger] rates[i] as int == zcr_rate_at(
                mono@,
                w as int,
                i,
            ),
            forall|i: int| 0 <= i < rates.len() ==> #[trigger] rates[i] <= 32768,
        decreases n + w - start,
    {
        let len: usize = if w <= n - start {
            w
        } else {
            n - start
        };
        proof {
            assert(ci < total) by (nonlinear_arith)
                requires
                    w as int >= 1,
                    start == ci * w,
                    start < n,
                    total * w >= n,
                    ci <= total,
            ;
            if ci < total - 1 {
                assert((ci + 1) * w <= (total - 1) * w) by (nonlinear_arith)
                    requires
                        w as int >= 1,
                        ci + 1 <= total - 1,
                ;
            }
        }
        if len >= 2 {
            let mut crossings: u64 = 0;
            let mut j: usize = 1;
            while j < len
                invariant
                    n == mono.len(),
                    start + len <= n,
                    1 <= j <= len,
                    crossings == crossings_in(mono@, start as int, j as int),
                    crossings <= j - 1,
                decreases len - j,
            {
                let a: i32 = mono[start + j - 1];
                let b: i32 = mono[start + j];
                if (a >= 0) != (b >= 0) {
                    crossings = crossings + 1;
                }
                j = j + 1;
            }
            proof {
                assert(crossings * 32768 <= 0x4000_0000int * 32768) by (nonlinear_arith)
                    requires
                        0 <= crossings <= 0x4000_0000,
                ;
            }
            let z: u64 = crossings * 32768 / (len as u64);
            proof {
                assert(crossings * 32768 / (len as int) <= 32768) by (nonlinear_arith)
                    requires
                        0 <= crossings,
                        crossings < len as int,
                        len as int >= 1,
                ;
                assert(z as int == zcr_rate_at(mono@, w as int, ci));
                if ci == total - 1 {
                    assert(rl == total);
                }
            }
            rates.push(z);
        } else {
            proof {
                assert(ci == total - 1) by (nonlinear_arith)
                    requires
                        w as int >= 2,
                        start == ci * w,
                        n as int - start <= 1,
                        start < n,
                        0 <= ci < total,
                        (total - 1) * w <= n - 1,
                ;
                assert(n as int - (total - 1) * w < 2);
                assert(rl == total - 1);
            }
        }
        proof {
            assert(ci * w + w == (ci + 1) * w) by (nonlinear_arith);
            assert(start + w <= total * w && total * w < n + w) by (nonlinear_arith)
                requires
                    w as int >= 1,
                    start == ci * w,
                    ci + 1 <= total,
                    (total - 1) * w <= n - 1,
            ;
            ci = ci + 1;
        }
        start = start + w;
    }
    proof {
        assert(ci == total) by (nonlinear_arith)
            requires
                w as int >= 1,
                start == ci * w,
                start >= n,
                ci == 0 || (ci - 1) * w < n,
                total * w >= n,
                (total - 1) * w <= n - 1,
                ci <= total,
                n >= 1,
        ;
    }
    if rates.len() == 0 {
        return (0, 0);
    }
    let count: usize = rates.len();
    proof {
        assert(rq.len() == count);
        assert(forall|i: int| 0 <= i < count ==> #[trigger] rq[i] == rates[i] as int);
    }
    // Mean rate.
    let mut sum: u64 = 0;
    let mut i: usize = 0;
    while i < count
        invariant
            count == rates.len(),
            1 <= count <= 0x4000_0000,
            rq.len() == count,
            forall|t: int| 0 <= t < count ==> #[trigger] rates[t] <= 32768,
            forall|t: int| 0 <= t < count ==> #[trigger] rq[t] == rates[t] as int,
            i <= count,
            sum == int_seq_sum(rq, i as int),
            sum <= i * 32768,
        decreases count - i,
    {
        proof {
            assert(rates@[i as int] <= 32768);
            assert(sum as int + rates[i as int] <= (i as int + 1) * 32768 && (i as int + 1) * 32768
                <= 0x4000_0000int * 32768 + 32768) by (nonlinear_arith)
                requires
                    sum as int <= i as int * 32768,
                    0 <= rates[i as int] <= 32768,
                    i as int + 1 <= 0x4000_0000 + 1,
            ;
        }
        sum = sum + rates[i];
        i = i + 1;
    }
    let mean: u64 = sum / (count as u64);
    proof {
        assert(sum as int / (count as int) <= 32768) by (nonlinear_arith)
            requires
                count as int >= 1,
                0 <= sum as int <= count as int * 32768,
        ;
    }
    // Variance of the rates.
    let mut var_sum: u64 = 0;
    let mut i2: usize = 0;
    while i2 < count
        invariant
            count == rates.len(),
            1 <= count <= 0x4000_0000,
            rq.len() == count,
            forall|t: int| 0 <= t < count ==> #[trigger] rates[t] <= 32768,
            forall|t: int| 0 <= t < count ==> #[trigger] rq[t] == rates[t] as int,
            mean <= 32768,
            i2 <= count,
            var_sum == sqdiff_sum(rq, mean as int, i2 as int),
            var_sum <= i2 * 0x4000_0000,
        decreases count - i2,
    {
        proof {
            assert(rates@[i2 as int] <= 32768);
        }
        let z: u64 = rates[i2];
        let diff: u64 = if z >= mean {
            z - mean
        } else {
            mean - z
        };
        proof {
            assert(diff * diff <= 0x4000_0000) by (nonlinear_arith)
                requires
                    0 <= diff <= 32768,
            ;
            assert(var_sum as int + diff * diff <= (i2 as int + 1) * 0x4000_0000 && (i2 as int + 1)
                * 0x4000_0000 <= 0x4000_0000int * 0x4000_0000 + 0x4000_0000) by (nonlinear_arith)
                requires
                    var_sum as int <= i2 as int * 0x4000_0000,
                    0 <= diff * diff <= 0x4000_0000,
                    i2 as int + 1 <= 0x4000_0000 + 1,
            ;
        }
        var_sum = var_sum + diff * diff;
        i2 = i2 + 1;
    }
    let var: u64 = var_sum / (count as u64);
    proof {
        assert(var_sum as int / (count as int) <= 0x4000_0000) by (nonlinear_arith)
            requires
                count as int >= 1,
                0 <= var_sum as int <= count as int * 0x4000_0000,
        ;
    }
    let std: u64 = isqrt(var);
    proof {
        assert(std as int * std as int <= 0x4000_0000);
        assert(std <= 32768) by (nonlinear_arith)
            requires
                0 <= std,
                std as int * std as int <= 0x4000_0000,
        ;
    }
    (mean as i32, std as i32)
}

/// Coefficient of variation of per-frame energy, in thousandths, capped
/// at 1000. Nearly-constant or nearly-silent signals report 0.
pub fn calculate_energy_cv(mono: &Vec<i32>) -> (cv: u32)
    requires
        mono.len() > 0,
        mono.len() <= 0x4000_0000,
        crate::buffer::samples_bounded(mono@),
    ensures
        cv <= 1000,
        cv as int == energy_cv_of(mono@),
{
    let n: usize = mono.len();
    let fs: usize = if n / 100 > 512 {
        n / 100
    } else {
        512
    };
    let ghost total = envelope_len(n as int, fs as int);
    let ghost eq = energies_of(mono@);
    proof {
        assert(total * fs >= n && (total - 1) * fs <= n - 1 && 1 <= total <= n)
            by (nonlinear_arith)
            requires
                fs as int >= 1,
                n as int >= 1,
                total == (n as int + fs as int - 1) / (fs as int),
        ;
        assert(0int * fs as int == 0) by (nonlinear_arith);
    }
    // Mean energy per frame, Q30.
    let mut energies: Vec<u64> = Vec::new();
    let mut start: usize = 0;
    while start < n
        invariant
            n == mono.len(),
            n <= 0x4000_0000,
            crate::buffer::samples_bounded(mono@),
            512 <= fs <= 0x4000_0000,
            total == envelope_len(n as int, fs as int),
            eq == energies_of(mono@),
            start == energies.len() * fs,
            energies.len() == 0 || (energies.len() - 1) * fs < n,
            energies.len() <= total,
            total * fs >= n,
            (total - 1) * fs <= n - 1,
            forall|i: int| 0 <= i < energies.len() ==> #[trigger] energies[i] as int == energy_at(
                mono@,
                fs as int,
                i,
            ),
            forall|i: int| 0 <= i < energies.len() ==> #[trigger] energies[i] <= 0x4000_0000,
        decreases n + fs - start,
    {
        let ghost ci = energies.len() as int;
        let len: usize = if fs <= n - start {
            fs
        } else {
            n - start
        };
        let mut sum: u64 = 0;
        let mut k: usize = 0;
        while k < len
            invariant
                n == mono.len(),
                crate::buffer::samples_bounded(mono@),
                start + len <= n,
                k <= len,
                len <= fs,
                fs <= 0x4000_0000,
                sum == sq_sum(mono@, start as int, k as int),
                sum <= k * 0x4000_0000,
            decreases len - k,
        {
            let s: i64 = mono[start + k] as i64;
            proof {
                assert(-32768 <= mono@[start as int + k as int] <= 32768);
                assert(0 <= s * s <= 0x4000_0000) by (nonlinear_arith)
                    requires
                        -32768 <= s <= 32768,
                ;
                assert(sum as int + s * s <= (k as int + 1) * 0x4000_0000 && (k as int + 1)
                    * 0x4000_0000 <= (0x4000_0000int + 1) * 0x4000_0000) by (nonlinear_arith)
                    requires
                        sum as int <= k as int * 0x4000_0000,
                        0 <= s * s <= 0x4000_0000,
                        k as int + 1 <= 0x4000_0000 + 1,
                ;
            }
            sum = sum + (s * s) as u64;
            k = k + 1;
        }
        let e: u64 = sum / (len as u64);
        proof {
            assert(sum as int / (len as int) <= 0x4000_0000) by (nonlinear_arith)
                requires
                    len as int >= 1,
                    0 <= sum as int <= len as int * 0x4000_0000,
            ;
            assert(e as int == energy_at(mono@, fs as int, ci));
            assert(ci * fs + fs == (ci + 1) * fs) by (nonlinear_arith);
            assert(ci + 1 <= total) by (nonlinear_arith)
                requires
                    fs as int >= 1,
                    ci * fs < n,
                    total * fs >= n,
                    (total - 1) * fs <= n - 1,
            ;
            assert(start + fs <= total * fs && total * fs < n + fs) by (nonlinear_arith)
                requires
                    fs as int >= 1,
                    start == ci * fs,
                    ci + 1 <= total,
                    (total - 1) * fs <= n - 1,
            ;
        }
        energies.push(e);
        start = start + fs;
    }
    let count: usize = energies.len();
    proof {
        let m = count as int;
        assert(m == total) by (nonlinear_arith)
            requires
                fs as int >= 1,
                m * fs >= n,
                m == 0 || (m - 1) * fs < n,
                total * fs >= n,
                (total - 1) * fs <= n - 1,
                m <= total,
                n >= 1,
        ;
        assert(eq.len() == count);
        assert(forall|i: int| 0 <= i < count ==> #[trigger] eq[i] == energy_at(
            mono@,
            fs as int,
            i,
        ));
    }
    let mut esum: u64 = 0;
    let mut i: usize = 0;
    while i < count
        invariant
            count == energies.len(),
            1 <= count <= 0x4000_0000,
            eq.len() == count,
            forall|t: int| 0 <= t < count ==> #[trigger] energies[t] <= 0x4000_0000,
            forall|t: int| 0 <= t < count ==> #[trigger] eq[t] == energies[t] as int,
            i <= count,
            esum == int_seq_sum(eq, i as int),
            esum <= i * 0x4000_0000,
        decreases count - i,
    {
        proof {
            assert(energies@[i as int] <= 0x4000_0000);
            assert(esum as int + energies[i as int] <= (i as int + 1) * 0x4000_0000 && (i as int
                + 1) * 0x4000_0000 <= (0x4000_0000int + 1) * 0x4000_0000) by (nonlinear_arith)
                requires
                    esum as int <= i as int * 0x4000_0000,
                    0 <= energies[i as int] <= 0x4000_0000,
                    i as int + 1 <= 0x4000_0000 + 1,
            ;
        }
        esum = esum + energies[i];
        i = i + 1;
    }
    let mean: u64 = esum / (count as u64);
    proof {
        assert(esum as int / (count as int) <= 0x4000_0000) by (nonlinear_arith)
            requires
                count as int >= 1,
                0 <= esum as int <= count as int * 0x4000_0000,
        ;
    }
    // A nearly silent signal has no meaningful variation.
    if mean * 10000 < 0x4000_0000 {
        return 0;
    }
    let mut vsum: u64 = 0;
    let mut i2: usize = 0;
    while i2 < count
        invariant
            count == energies.len(),
            1 <= count <= 0x4000_0000,
            eq.len() == count,
            forall|t: int| 0 <= t < count ==> #[trigger] energies[t] <= 0x4000_0000,
            forall|t: int| 0 <= t < count ==> #[trigger] eq[t] == energies[t] as int,
            mean <= 0x4000_0000,
            i2 <= count,
            vsum == scaled_sqdiff_sum(eq, mean as int, i2 as int),
            vsum <= i2 * 0x4000_0000,
        decreases count - i2,
    {
        proof {
            assert(energies@[i2 as int] <= 0x4000_0000);
        }
        let e: u64 = energies[i2];
        let diff: u64 = if e >= mean {
            e - mean
        } else {
            mean - e
        };
        proof {
            assert(diff * diff <= 0x4000_0000int * 0x4000_0000) by (nonlinear_arith)
                requires
                    0 <= diff <= 0x4000_0000,
            ;
            assert(diff * diff / 0x4000_0000 <= 0x4000_0000) by (nonlinear_arith)
                requires
                    0 <= diff * diff <= 0x4000_0000int * 0x4000_0000,
            ;
        }
        let dsq: u64 = diff * diff / 0x4000_0000;
        proof {
            assert(vsum as int + dsq <= (i2 as int + 1) * 0x4000_0000 && (i2 as int + 1)
                * 0x4000_0000 <= (0x4000_0000int + 1) * 0x4000_0000) by (nonlinear_arith)
                requires
                    vsum as int <= i2 as int * 0x4000_0000,
                    0 <= dsq <= 0x4000_0000,
                    i2 as int + 1 <= 0x4000_0000 + 1,
            ;
        }
        vsum = vsum + dsq;
        i2 = i2 + 1;
    }
    let var: u64 = vsum / (count as u64);
    proof {
        assert(vsum as int / (count as int) <= 0x4000_0000) by (nonlinear_arith)
            requires
                count as int >= 1,
                0 <= vsum as int <= count as int * 0x4000_0000,
        ;
    }
    let std: u64 = isqrt(var);
    proof {
        assert(std as int * std as int <= 0x4000_0000);
        assert(std <= 32768) by (nonlinear_arith)
            requires
                0 <= std,
                std as int * std as int <= 0x4000_0000,
        ;
    }
    // Coefficient of variation: std / mean, scaled to thousandths.
    let cv: u64 = std * 32768 * 1000 / mean;
    if cv > 1000 {
        1000
    } else {
        cv as u32
    }
}

/// Fraction of energy frames whose RMS is below the silence threshold,
/// in thousandths, following the frame layout of `silent_chunks`.
pub fn calculate_silent_ratio(mono: &Vec<i32>) -> (ratio: u32)
    requires
        mono.len() > 0,
        mono.len() <= 0x4000_0000,
        crate::buffer::samples_bounded(mono@),
    ensures
        ratio <= 1000,
        ratio as int == silent_ratio_of(mono@, energy_frame_size(mono.len() as int)),
{
    let n: usize = mono.len();
    let fs: usize = if n / 100 > 512 {
        n / 100
    } else {
        512
    };
    let ghost total = envelope_len(n as int, fs as int);
    proof {
        assert(total * fs >= n && (total - 1) * fs <= n - 1 && 1 <= total <= n)
            by (nonlinear_arith)
            requires
                fs as int >= 1,
                n as int >= 1,
                total == (n as int + fs as int - 1) / (fs as int),
        ;
    }
    let mut silent: u64 = 0;
    let mut chunks: u64 = 0;
    let mut start: usize = 0;
    proof {
        assert(0int * fs as int == 0) by (nonlinear_arith);
    }
    while start < n
        invariant
            n == mono.len(),
            n <= 0x4000_0000,
            crate::buffer::samples_bounded(mono@),
            512 <= fs <= 0x4000_0000,
            total == envelope_len(n as int, fs as int),
            start == chunks * fs,
            chunks == 0 || (chunks - 1) * fs < n,
            chunks <= total,
            total * fs >= n,
            (total - 1) * fs <= n - 1,
            silent == silent_chunks(mono@, fs as int, chunks as int),
            silent <= chunks,
        decreases n + fs - start,
    {
        let ghost ci = chunks as int;
        let len: usize = if fs <= n - start {
            fs
        } else {
            n - start
        };
        let mut sum: u64 = 0;
        let mut k: usize = 0;
        while k < len
            invariant
                n == mono.len(),
                crate::buffer::samples_bounded(mono@),
                start + len <= n,
                k <= len,
                len <= fs <= 0x4000_0000,
                sum == sq_sum(mono@, start as int, k as int),
                sum <= k * 0x4000_0000,
            decreases len - k,
        {
            let s: i64 = mono[start + k] as i64;
            proof {
                assert(-32768 <= mono@[start as int + k as int] <= 32768);
                assert(0 <= s * s <= 0x4000_0000) by (nonlinear_arith)
                    requires
                        -32768 <= s <= 32768,
                ;
                assert(sum as int + s * s <= (k as int + 1) * 0x4000_0000 && (k as int + 1)
                    * 0x4000_0000 <= (0x4000_0000int + 1) * 0x4000_0000) by (nonlinear_arith)
                    requires
                        sum as int <= k as int * 0x4000_0000,
                        0 <= s * s <= 0x4000_0000,
                        k as int + 1 <= 0x4000_0000 + 1,
                ;
            }
            sum = sum + (s * s) as u64;
            k = k + 1;
        }
        let mean: u64 = sum / (len as u64);
        proof {
            assert(sq_sum(mono@, start as int, len as int) / (len as int) <= 0x4000_0000)
                by (nonlinear_arith)
                requires
                    len as int >= 1,
                    0 <= sq_sum(mono@, start as int, len as int) <= len as int * 0x4000_0000,
            ;
        }
        let r: u64 = isqrt(mean);
        proof {
            assert(r as int * r as int <= 0x4000_0000);
            assert(r <= 32768) by (nonlinear_arith)
                requires
                    0 <= r,
                    r as int * r as int <= 0x4000_0000,
            ;
        }
        if r * 100 < 32768 {
            silent = silent + 1;
        }
        proof {
            assert(ci * fs + fs == (ci + 1) * fs) by (nonlinear_arith);
            assert(ci + 1 <= total) by (nonlinear_arith)
                requires
                    fs as int >= 1,
                    ci * fs < n,
                    total * fs >= n,
                    (total - 1) * fs <= n - 1,
            ;
            assert(start + fs <= total * fs && total * fs < n + fs) by (nonlinear_arith)
                requires
                    fs as int >= 1,
                    start == ci * fs,
                    ci + 1 <= total,
                    (total - 1) * fs <= n - 1,
            ;
        }
        chunks = chunks + 1;
        start = start + fs;
    }
    proof {
        let m = chunks as int;
        assert(m == total) by (nonlinear_arith)
            requires
                fs as int >= 1,
                m * fs >= n,
                m == 0 || (m - 1) * fs < n,
                total * fs >= n,
                (total - 1) * fs <= n - 1,
                m <= total,
                n >= 1,
        ;
        assert(silent * 1000 <= 0x4000_0000int * 1000) by (nonlinear_arith)
            requires
                0 <= silent <= 0x4000_0000,
        ;
        assert(silent * 1000 / (chunks as int) <= 1000) by (nonlinear_arith)
            requires
                chunks as int >= 1,
                0 <= silent <= chunks as int,
        ;
    }
    let ratio: u64 = silent * 1000 / chunks;
    ratio as u32
}

/// Audio content classifier over cheap spectral features.
///
/// The thresholds mirror the decision rule: an RMS silence floor of
/// 0.010, a silent-frame ceiling of one half, a zero-crossing deviation
/// threshold of 0.150 and a flatness threshold of 0.300.
pub struct AudioClassifier {
    /// RMS floor below which audio counts as silence, thousandths.
    pub silence_rms_milli: u32,
    /// Silent-frame fraction above which audio counts as silence,
    /// thousandths.
    pub silence_ratio_milli: u32,
    /// Zero-crossing deviation above which speech is suspected,
    /// thousandths.
    pub zcr_std_milli: u32,
    /// Flatness above which noise or speech is suspected, thousandths.
    pub flatness_milli: u32,
}

impl AudioClassifier {
    pub fn new() -> (c: Self)
        ensures
            c.silence_rms_milli == 10,
            c.silence_ratio_milli == 500,
            c.zcr_std_milli == 150,
            c.flatness_milli == 300,
    {
        Self {
            silence_rms_milli: 10,
            silence_ratio_milli: 500,
            zcr_std_milli: 150,
            flatness_milli: 300,
        }
    }

    /// Classify a clip. An empty clip is silence with full confidence;
    /// anything else goes through the feature decision rule, so the
    /// returned type and confidence are exactly `decide` applied to the
    /// returned details.
    pub fn classify(&self, audio: &RawAudioBuffer) -> (result: ClassificationResult)
        requires
            audio.wf(),
            audio.samples.len() <= 0x4000_0000,
        ensures
            details_wf(result.details),
            audio.samples.len() as int / (audio.channels as int) == 0 ==> result.content_type
                == ContentType::Silence && result.confidence_milli == 1000,
            audio.samples.len() as int / (audio.channels as int) > 0 ==> {
                &&& result.content_type == decide(*self, result.details).0
                &&& result.confidence_milli as int == decide(*self, result.details).1
                &&& result.details.rms_q15 as int == rms_of(crate::bpm::mono_of(
                    audio.samples@,
                    audio.channels as int,
                ))
                &&& result.details.silent_ratio_milli as int == silent_ratio_of(
                    crate::bpm::mono_of(audio.samples@, audio.channels as int),
                    energy_frame_size(
                        audio.samples.len() as int / (audio.channels as int),
                    ),
                )
                &&& result.details.zcr_mean_q15 as int == zcr_stats_of(
                    crate::bpm::mono_of(audio.samples@, audio.channels as int),
                ).0
                &&& result.details.zcr_std_q15 as int == zcr_stats_of(
                    crate::bpm::mono_of(audio.samples@, audio.channels as int),
                ).1
                &&& result.details.flatness_milli as int == flatness_of(
                    crate::bpm::mono_of(audio.samples@, audio.channels as int),
                )
                &&& result.details.energy_cv_milli as int == energy_cv_of(
                    crate::bpm::mono_of(audio.samples@, audio.channels as int),
                )
            },
    {
        let ghost spec_mono = crate::bpm::mono_of(audio.samples@, audio.channels as int);
        let mono: Vec<i32> = audio.to_mono();
        proof {
            assert(mono@ =~= spec_mono);
            assert(mono.len() <= audio.samples.len()) by (nonlinear_arith)
                requires
                    mono.len() == audio.samples.len() as int / (audio.channels as int),
                    audio.channels as int >= 1,
                    audio.samples.len() >= 0,
            ;
        }
        if mono.len() == 0 {
            return ClassificationResult {
                content_type: ContentType::Silence,
                confidence_milli: 1000,
                details: ClassificationDetails {
                    rms_q15: 0,
                    zcr_mean_q15: 0,
                    zcr_std_q15: 0,
                    flatness_milli: 0,
                    energy_cv_milli: 0,
                    silent_ratio_milli: 1000,
                },
            };
        }
        let rms_q15: i32 = calculate_rms(&mono);
        let zcr: (i32, i32) = calculate_zcr_stats(&mono);
        let flatness_milli: u32 = calculate_flatness(&mono);
        let energy_cv_milli: u32 = calculate_energy_cv(&mono);
        let silent_ratio_milli: u32 = calculate_silent_ratio(&mono);
        let details = ClassificationDetails {
            rms_q15,
            zcr_mean_q15: zcr.0,
            zcr_std_q15: zcr.1,
            flatness_milli,
            energy_cv_milli,
            silent_ratio_milli,
        };
        let decision: (ContentType, u32) = self.classify_from_features(&details);
        ClassificationResult {
            content_type: decision.0,
            confidence_milli: decision.1,
            details,
        }
    }

    /// Apply the decision rule to measured features.
    pub fn classify_from_features(&self, d: &ClassificationDetails) -> (r: (ContentType, u32))
        requires
            details_wf(*d),
        ensures
            r.0 == decide(*self, *d).0,
            r.1 as int == decide(*self, *d).1,
    {
        if (d.rms_q15 as u64) * 1000 < (self.silence_rms_milli as u64) * 32768
            || d.silent_ratio_milli > self.silence_ratio_milli {
            return (ContentType::Silence, 900);
        }
        let s: u32 = self.speech_score(d);
        let m: u32 = self.music_score(d);
        if s > 600 && s > m {
            let gap: u32 = s - m;
            let margin: u32 = if gap < 500 {
                gap
            } else {
                500
            };
            (ContentType::Speech, margin + 500)
        } else if m > 500 {
            let gap: u32 = if m > s {
                m - s
            } else {
                0
            };
            let margin: u32 = if gap < 400 {
                gap
            } else {
                400
            };
            (ContentType::Music, margin + 600)
        } else {
            (ContentType::Unknown, 500)
        }
    }

    /// Speech likelihood score in thousandths.
    pub fn speech_score(&self, d: &ClassificationDetails) -> (score: u32)
        requires
            details_wf(*d),
        ensures
            score as int == speech_score_milli(*self, *d),
    {
        let mut score: u32 = 0;
        if (d.zcr_std_q15 as u64) * 1000 > (self.zcr_std_milli as u64) * 32768 {
            score = score + 350;
        } else if (d.zcr_std_q15 as u64) * 2000 > (self.zcr_std_milli as u64) * 32768 {
            score = score + 150;
        }
        if d.flatness_milli > self.flatness_milli {
            score = score + 350;
        } else if (d.flatness_milli as u64) * 10 > (self.flatness_milli as u64) * 7 {
            score = score + 150;
        }
        if d.energy_cv_milli > 300 {
            score = score + 300;
        } else if d.energy_cv_milli > 150 {
            score = score + 150;
        }
        if score > 1000 {
            1000
        } else {
            score
        }
    }

    /// Music likelihood score in thousandths.
    pub fn music_score(&self, d: &ClassificationDetails) -> (score: u32)
        requires
            details_wf(*d),
        ensures
            score as int == music_score_milli(*self, *d),
    {
        let mut score: u32 = 0;
        if (d.zcr_std_q15 as u64) * 2000 < (self.zcr_std_milli as u64) * 32768 {
            score = score + 300;
        }
        if (d.flatness_milli as u64) * 2 < self.flatness_milli as u64 {
            score = score + 300;
        }
        if 50 < d.energy_cv_milli && d.energy_cv_milli < 250 {
            score = score + 200;
        }
        if (d.rms_q15 as u64) * 20 > 32768 {
            score = score + 200;
        }
        if d.silent_ratio_milli < 100 {
            score = score + 200;
        }
        if score > 1000 {
            1000
        } else {
            score
        }
    }
}

impl Default for AudioClassifier {
    fn default() -> (c: Self)
        ensures
            c.silence_rms_milli == 10,
            c.silence_ratio_milli == 500,
            c.zcr_std_milli == 150,
            c.flatness_milli == 300,
    {
        Self::new()
    }
}

/// The reason a rejected clip is logged with.
pub fn rejection_reason(content: ContentType) -> (s: String)
    requires
        content == ContentType::Speech || content == ContentType::Silence,
    ensures
        content == ContentType::Speech ==> s@ == "detected speech/talk content"@,
        content == ContentType::Silence ==> s@ == "detected silence"@,
{
    if matches!(content, ContentType::Speech) {
        "detected speech/talk content".to_owned()
    } else {
        "detected silence".to_owned()
    }
}

} // verus!
