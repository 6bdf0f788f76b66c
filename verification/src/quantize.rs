//! Quantization: shape processed audio into an exact bar-aligned loop.
//! The start is aligned to a detected onset and both edges get a
//! raised-cosine fade so clips never click.

use vstd::prelude::*;

use crate::bpm::{detect_bpm, envelope_len, mono_of, BpmEstimate};
use crate::buffer::{loop_target_frames, round_div, LoopBuffer, LoopInfo, RawAudioBuffer, CHANNELS,
    SAMPLE_RATE};
use crate::errors::AudioError;
use crate::fixed::div_trunc;
use crate::source::{fade_t, sin_gain};

verus! {


/// Sum of absolute values of `s[start..start+len]`.
pub open spec fn abs_sum(s: Seq<i32>, start: int, len: int) -> int
    decreases len,
{
    if len <= 0 {
        0
    } else {
        abs_sum(s, start, len - 1) + if s[start + len - 1] < 0 {
            -s[start + len - 1]
        } else {
            s[start + len - 1] as int
        }
    }
}

/// Mean absolute amplitude of onset chunk `i` (hop 512), Q15.
pub open spec fn onset_energy(s: Seq<i32>, i: int) -> int {
    let start = i * 512;
    let len = if start + 512 <= s.len() {
        512int
    } else {
        s.len() - start
    };
    abs_sum(s, start, len) / len
}

/// The reference energy an onset is compared against: the previous
/// chunk's energy, floored away from zero (none before the first chunk).
pub open spec fn onset_prev(s: Seq<i32>, i: int) -> int {
    if i == 0 {
        0
    } else if onset_energy(s, i - 1) > 33 {
        onset_energy(s, i - 1)
    } else {
        33
    }
}

/// An onset: energy jumps to more than 1.5 times the previous chunk's
/// and is above the 0.01 floor.
pub open spec fn is_onset(s: Seq<i32>, i: int) -> bool {
    2 * onset_energy(s, i) > 3 * onset_prev(s, i) && 100 * onset_energy(s, i) > 32768
}

/// The interleaved start index of the first onset (scanning chunks from
/// `k`) that leaves room for the loop, or 0 when none does.
pub open spec fn first_onset_start(s: Seq<i32>, k: int, n_chunks: int, max_start: int) -> int
    decreases n_chunks - k,
{
    if k >= n_chunks {
        0
    } else if is_onset(s, k) && k * 1024 <= max_start {
        k * 1024
    } else {
        first_onset_start(s, k + 1, n_chunks, max_start)
    }
}

/// Raised-cosine fade gain at progress `t` (Q15): `sin^2(t * pi / 2)`,
/// which equals `(1 - cos(pi t)) / 2`.
pub open spec fn hann_gain(t: int) -> int {
    sin_gain(t) * sin_gain(t) / 32768
}

/// A sample scaled by a Q15 gain, truncating toward zero.
pub open spec fn scaled(v: int, g: int) -> int {
    div_trunc(v * g, 32768)
}

/// The edge-fade length for a clip of `len` interleaved samples.
pub open spec fn edge_fade_len(len: int) -> int {
    if 2048 < len / 4 {
        2048
    } else {
        len / 4
    }
}

/// A clip with raised-cosine fades applied over its first and last
/// `edge_fade_len` samples.
pub open spec fn faded(t: Seq<i32>) -> Seq<i32> {
    let f = edge_fade_len(t.len() as int);
    Seq::new(
        t.len(),
        |i: int|
            if i < f {
                scaled(t[i] as int, hann_gain(fade_t(i, f))) as i32
            } else if i >= t.len() - f {
                scaled(t[i] as int, hann_gain(fade_t(t.len() - 1 - i, f))) as i32
            } else {
                t[i]
            },
    )
}

/// The loop slice the quantizer cuts from processed interleaved stereo
/// audio: `target_samples` samples starting at the first workable
/// onset, with edge fades applied.
pub open spec fn loop_slice(s: Seq<i32>, target_samples: int) -> Seq<i32> {
    let mono = mono_of(s, 2);
    let max_start = s.len() - target_samples;
    let start = first_onset_start(
        mono,
        0,
        envelope_len(mono.len() as int, 512),
        max_start,
    );
    faded(s.subrange(start, start + target_samples))
}

/// Audio quantizer: beat alignment at a chosen or detected tempo.
#[derive(Debug, Clone)]
pub struct Quantizer {
    /// Lower bound of the detection range, milli-BPM.
    pub min_bpm_milli: u32,
    /// Upper bound of the detection range, milli-BPM.
    pub max_bpm_milli: u32,
}

impl Quantizer {
    /// A usable detection range.
    pub open spec fn wf(&self) -> bool {
        0 < self.min_bpm_milli <= self.max_bpm_milli
    }

    pub fn new(min_bpm_milli: u32, max_bpm_milli: u32) -> (q: Self)
        requires
            0 < min_bpm_milli <= max_bpm_milli,
        ensures
            q.wf(),
            q.min_bpm_milli == min_bpm_milli,
            q.max_bpm_milli == max_bpm_milli,
    {
        Self { min_bpm_milli, max_bpm_milli }
    }

    /// Estimate the tempo of raw audio within this quantizer's range.
    pub fn detect_bpm(&self, raw: &RawAudioBuffer, min_bpm_milli: u32, max_bpm_milli: u32) -> (est:
        BpmEstimate)
        requires
            raw.wf(),
            40 <= raw.sample_rate <= 1_000_000,
            raw.samples.len() <= 0x4000_0000,
            0 < min_bpm_milli <= max_bpm_milli,
        ensures
            est.bpm_milli as int == crate::bpm::detect_result(
                raw.samples@,
                raw.channels as int,
                raw.sample_rate as int,
                min_bpm_milli as int,
                max_bpm_milli as int,
            ).0,
            est.confidence_milli as int == crate::bpm::detect_result(
                raw.samples@,
                raw.channels as int,
                raw.sample_rate as int,
                min_bpm_milli as int,
                max_bpm_milli as int,
            ).1,
            est.bpm_milli > 0,
            est.confidence_milli <= 1000,
    {
        detect_bpm(raw, min_bpm_milli, max_bpm_milli)
    }

    /// Quantize audio whose tempo is taken as detected: no stretching,
    /// the loop is cut at the detected tempo.
    pub fn quantize_auto(&self, raw: RawAudioBuffer, bars: u8, beats_per_bar: u8) -> (r: Result<
        LoopBuffer,
        AudioError,
    >)
        requires
            self.wf(),
            raw.wf(),
            raw.channels == CHANNELS,
            raw.sample_rate == SAMPLE_RATE,
            raw.samples.len() <= 0x4000_0000,
            1 <= bars,
            1 <= beats_per_bar,
        ensures
            match r {
                Ok(buf) => {
                    let est = crate::bpm::detect_result(
                        raw.samples@,
                        raw.channels as int,
                        raw.sample_rate as int,
                        self.min_bpm_milli as int,
                        self.max_bpm_milli as int,
                    );
                    &&& buf.wf()
                    &&& buf.loop_info.bpm_milli == est.0
                    &&& buf.loop_info.source_bpm_milli == est.0
                    &&& buf.loop_info.bpm_confidence_milli == est.1
                    &&& !buf.loop_info.time_stretched
                    &&& buf.loop_info.bars == bars
                    &&& buf.loop_info.beats_per_bar == beats_per_bar
                    &&& raw.samples.len() >= buf.samples.len()
                    &&& buf.samples@ == loop_slice(
                        raw.samples@,
                        buf.loop_info.duration_samples as int * 2,
                    )
                },
                Err(e) => {
                    &&& e matches AudioError::AudioTooShort(_)
                },
            },
            (r is Err) <==> raw.samples.len() < loop_target_frames(
                bars as int,
                beats_per_bar as int,
                crate::bpm::detect_result(
                    raw.samples@,
                    raw.channels as int,
                    raw.sample_rate as int,
                    self.min_bpm_milli as int,
                    self.max_bpm_milli as int,
                ).0,
                SAMPLE_RATE as int,
            ) * 2,
    {
        let est: BpmEstimate = detect_bpm(&raw, self.min_bpm_milli, self.max_bpm_milli);
        finish_quantize(raw, est.bpm_milli, est.bpm_milli, est.confidence_milli, false, bars,
            beats_per_bar)
    }

    /// Quantize audio that has already been brought to a fixed tempo.
    /// `source_bpm_milli` is the tempo detected before stretching;
    /// `time_stretched` records whether the tempi differed by more than
    /// half a BPM.
    pub fn quantize_stretched(
        &self,
        processed: RawAudioBuffer,
        source_bpm_milli: u32,
        target_bpm_milli: u32,
        bars: u8,
        beats_per_bar: u8,
    ) -> (r: Result<LoopBuffer, AudioError>)
        requires
            processed.wf(),
            processed.channels == CHANNELS,
            processed.sample_rate == SAMPLE_RATE,
            processed.samples.len() <= 0x4000_0000,
            0 < source_bpm_milli,
            0 < target_bpm_milli,
            1 <= bars,
            1 <= beats_per_bar,
        ensures
            match r {
                Ok(buf) => {
                    &&& buf.wf()
                    &&& buf.loop_info.bpm_milli == target_bpm_milli
                    &&& buf.loop_info.source_bpm_milli == source_bpm_milli
                    &&& buf.loop_info.bpm_confidence_milli == 1000
                    &&& buf.loop_info.time_stretched == (crate::stretch::abs_diff(
                        source_bpm_milli as int,
                        target_bpm_milli as int,
                    ) > 500)
                    &&& buf.loop_info.bars == bars
                    &&& buf.loop_info.beats_per_bar == beats_per_bar
                    &&& buf.samples@ == loop_slice(
                        processed.samples@,
                        buf.loop_info.duration_samples as int * 2,
                    )
                },
                Err(e) => {
                    &&& e matches AudioError::AudioTooShort(_)
                },
            },
            (r is Err) <==> processed.samples.len() < loop_target_frames(
                bars as int,
                beats_per_bar as int,
                target_bpm_milli as int,
                SAMPLE_RATE as int,
            ) * 2,
    {
        let diff: u32 = if source_bpm_milli >= target_bpm_milli {
            source_bpm_milli - target_bpm_milli
        } else {
            target_bpm_milli - source_bpm_milli
        };
        let time_stretched: bool = diff > 500;
        finish_quantize(processed, target_bpm_milli, source_bpm_milli, 1000, time_stretched, bars,
            beats_per_bar)
    }
}

/// Cut and fade the bar-aligned loop from processed audio and attach
/// its metadata. Fails exactly when the audio cannot cover the loop.
fn finish_quantize(
    processed: RawAudioBuffer,
    target_bpm_milli: u32,
    source_bpm_milli: u32,
    confidence_milli: u32,
    time_stretched: bool,
    bars: u8,
    beats_per_bar: u8,
) -> (r: Result<LoopBuffer, AudioError>)
    requires
        processed.wf(),
        processed.channels == CHANNELS,
        processed.sample_rate == SAMPLE_RATE,
        processed.samples.len() <= 0x4000_0000,
        0 < target_bpm_milli,
        0 < source_bpm_milli,
        confidence_milli <= 1000,
        1 <= bars,
        1 <= beats_per_bar,
    ensures
        ({
            let tf = loop_target_frames(
                bars as int,
                beats_per_bar as int,
                target_bpm_milli as int,
                SAMPLE_RATE as int,
            );
            match r {
                Ok(buf) => {
                    &&& processed.samples.len() >= tf * 2
                    &&& buf.wf()
                    &&& buf.loop_info.bpm_milli == target_bpm_milli
                    &&& buf.loop_info.source_bpm_milli == source_bpm_milli
                    &&& buf.loop_info.bpm_confidence_milli == confidence_milli
                    &&& buf.loop_info.time_stretched == time_stretched
                    &&& buf.loop_info.bars == bars
                    &&& buf.loop_info.beats_per_bar == beats_per_bar
                    &&& buf.loop_info.duration_samples == tf
                    &&& buf.samples@ == loop_slice(processed.samples@, tf * 2)
                },
                Err(e) => {
                    &&& processed.samples.len() < tf * 2
                    &&& e matches AudioError::AudioTooShort(_)
                },
            }
        }),
{
    // Loop length in frames at the target tempo, rounded to the nearest
    // frame.
    proof {
        assert(bars as int * beats_per_bar as int <= 65025) by (nonlinear_arith)
            requires
                bars as int <= 255,
                beats_per_bar as int <= 255,
        ;
    }
    let total_beats: u64 = (bars as u64) * (beats_per_bar as u64);
    proof {
        assert(total_beats * 60000 * 48000 <= 65025int * 60000 * 48000) by (nonlinear_arith)
            requires
                0 <= total_beats <= 65025,
        ;
    }
    let numer: u64 = total_beats * 60000 * (SAMPLE_RATE as u64);
    let bpm: u64 = target_bpm_milli as u64;
    proof {
        assert((numer as int + bpm as int / 2) / (bpm as int) <= numer as int + bpm as int / 2)
            by (nonlinear_arith)
            requires
                bpm as int >= 1,
                numer as int >= 0,
        ;
    }
    let target_frames: u64 = (numer + bpm / 2) / bpm;
    let target_samples: u64 = target_frames * 2;
    if (processed.samples.len() as u64) < target_samples {
        let needed_millis: u64 = total_beats * 60_000_000 / bpm;
        proof {
            assert(total_beats * 60_000_000 <= 65025 * 60_000_000) by (nonlinear_arith)
                requires
                    total_beats <= 65025,
            ;
        }
        return Err(AudioError::AudioTooShort(needed_millis));
    }
    let ts: usize = target_samples as usize;
    let max_start: usize = processed.samples.len() - ts;

    // Align the cut to the first onset that leaves room for the loop.
    let mono: Vec<i32> = processed.to_mono();
    proof {
        assert(mono@ =~= mono_of(processed.samples@, 2));
        assert(mono.len() <= processed.samples.len()) by (nonlinear_arith)
            requires
                mono.len() == processed.samples.len() as int / 2,
                processed.samples.len() >= 0,
        ;
    }
    let start: usize = find_best_start(&mono, max_start);

    // Cut the loop and fade its edges.
    proof {
        assert(start + ts <= processed.samples.len());
    }
    let fade: usize = if 2048 < ts / 4 {
        2048
    } else {
        ts / 4
    };
    let mut samples: Vec<i32> = Vec::new();
    let ghost target_seq = faded(processed.samples@.subrange(start as int, start as int + ts));
    let mut i: usize = 0;
    while i < ts
        invariant
            processed.wf(),
            start + ts <= processed.samples.len(),
            ts < 0x8000_0000_0000,
            fade == edge_fade_len(ts as int),
            fade <= ts / 4,
            target_seq == faded(processed.samples@.subrange(start as int, start as int + ts)),
            i <= ts,
            samples.len() == i,
            forall|j: int| 0 <= j < i ==> #[trigger] samples[j] == target_seq[j],
            crate::buffer::samples_bounded(samples@),
        decreases ts - i,
    {
        let v: i32 = processed.samples[start + i];
        proof {
            assert(-32768 <= processed.samples@[start as int + i as int] <= 32768);
        }
        let out: i32 = if i < fade {
            apply_gain(v, i, fade)
        } else if i >= ts - fade {
            apply_gain(v, ts - 1 - i, fade)
        } else {
            v
        };
        proof {
            assert(target_seq[i as int] == out);
        }
        samples.push(out);
        i = i + 1;
    }
    proof {
        assert(samples@ =~= target_seq);
    }

    let loop_info = LoopInfo {
        bpm_milli: target_bpm_milli,
        source_bpm_milli,
        bpm_confidence_milli: confidence_milli,
        time_stretched,
        bars,
        beats_per_bar,
        duration_samples: target_frames as usize,
        sample_rate: SAMPLE_RATE,
    };
    Ok(LoopBuffer::new(samples, loop_info))
}

/// Scale a sample by the raised-cosine gain at offset `off` within a
/// fade of `fade` samples.
fn apply_gain(v: i32, off: usize, fade: usize) -> (out: i32)
    requires
        -32768 <= v <= 32768,
        off < fade,
        fade < 0x1000_0000_0000,
    ensures
        out as int == scaled(v as int, hann_gain(fade_t(off as int, fade as int))),
        -32768 <= out <= 32768,
{
    let t64: u64 = (off as u64) * 32768 / (fade as u64);
    proof {
        assert(off as int * 32768 < 0x1000_0000_0000int * 32768) by (nonlinear_arith)
            requires
                0 <= off as int,
                (off as int) < 0x1000_0000_0000int,
        ;
        assert(0 <= off as int * 32768 / (fade as int)) by (nonlinear_arith)
            requires
                off as int >= 0,
                fade as int >= 1,
        ;
        assert(off as int * 32768 / (fade as int) < 32768) by (nonlinear_arith)
            requires
                0 <= off as int,
                (off as int) < fade as int,
                fade as int >= 1,
        ;
    }
    let s: i64 = crate::source::sin_gain_exec(t64 as i64);
    proof {
        crate::source::lemma_sin_gain_bounded(t64 as int);
        assert(0 <= s * s <= 0x4000_0000) by (nonlinear_arith)
            requires
                0 <= s <= 32768,
        ;
        assert(0 <= s * s / 32768 <= 32768) by (nonlinear_arith)
            requires
                0 <= s * s <= 0x4000_0000,
        ;
    }
    let g: i64 = s * s / 32768;
    proof {
        assert(-0x4000_0000 <= v as int * g <= 0x4000_0000) by (nonlinear_arith)
            requires
                -32768 <= v as int <= 32768,
                0 <= g <= 32768,
        ;
    }
    let out: i64 = crate::fixed::div_round_zero((v as i64) * g, 32768);
    proof {
        crate::source::lemma_scale_bounded(v as int, g as int);
    }
    out as i32
}

/// Find the interleaved start index of the first onset that leaves room
/// for `max_start` more samples; 0 when no onset qualifies.
fn find_best_start(mono: &Vec<i32>, max_start: usize) -> (start: usize)
    requires
        mono.len() <= 0x4000_0000,
        crate::buffer::samples_bounded(mono@),
    ensures
        start as int == first_onset_start(
            mono@,
            0,
            envelope_len(mono.len() as int, 512),
            max_start as int,
        ),
        start <= max_start || start == 0,
{
    let n: usize = mono.len();
    let ghost n_chunks = envelope_len(n as int, 512);
    proof {
        assert(n_chunks * 512 >= n && (n_chunks - 1) * 512 <= n - 1 && 0 <= n_chunks <= n)
            by (nonlinear_arith)
            requires
                n as int >= 0,
                n_chunks == (n as int + 511) / 512,
        ;
        assert(0int * 512 == 0) by (nonlinear_arith);
    }
    let mut found: bool = false;
    let mut best: usize = 0;
    let mut prev: u64 = 0;
    let mut ci: usize = 0;
    let mut start_m: usize = 0;
    while start_m < n
        invariant
            n == mono.len(),
            n <= 0x4000_0000,
            crate::buffer::samples_bounded(mono@),
            n_chunks == envelope_len(n as int, 512),
            start_m == ci * 512,
            ci == 0 || (ci - 1) * 512 < n,
            ci <= n_chunks,
            n_chunks * 512 >= n,
            (n_chunks - 1) * 512 <= n - 1,
            prev == onset_prev(mono@, ci as int),
            prev <= 32768,
            found ==> best == first_onset_start(mono@, 0, n_chunks, max_start as int),
            found ==> (best <= max_start || best == 0),
            !found ==> best == 0,
            !found ==> first_onset_start(mono@, 0, n_chunks, max_start as int)
                == first_onset_start(mono@, ci as int, n_chunks, max_start as int),
        decreases n + 512 - start_m,
    {
        let len: usize = if 512 <= n - start_m {
            512
        } else {
            n - start_m
        };
        let mut sum: u64 = 0;
        let mut k: usize = 0;
        while k < len
            invariant
                n == mono.len(),
                crate::buffer::samples_bounded(mono@),
                start_m + len <= n,
                k <= len,
                len <= 512,
                sum == abs_sum(mono@, start_m as int, k as int),
                sum <= k * 32768,
            decreases len - k,
        {
            proof {
                assert(-32768 <= mono@[start_m as int + k as int] <= 32768);
            }
            let a: i32 = if mono[start_m + k] < 0 {
                -mono[start_m + k]
            } else {
                mono[start_m + k]
            };
            sum = sum + (a as u64);
            k = k + 1;
        }
        let energy: u64 = sum / (len as u64);
        proof {
            assert(abs_sum(mono@, start_m as int, len as int) / (len as int) <= 32768)
                by (nonlinear_arith)
                requires
                    len as int >= 1,
                    0 <= abs_sum(mono@, start_m as int, len as int) <= len as int * 32768,
            ;
            assert(energy == onset_energy(mono@, ci as int));
        }
        let hit: bool = 2 * energy > 3 * prev && 100 * energy > 32768;
        proof {
            assert(hit == is_onset(mono@, ci as int));
            assert(ci * 1024 == ci * 512 * 2) by (nonlinear_arith);
            assert(ci * 512 * 2 <= 0x4000_0000int * 1024) by (nonlinear_arith)
                requires
                    0 <= ci <= 0x4000_0000,
                    start_m == ci * 512,
            ;
        }
        let idx: usize = start_m * 2;
        if !found && hit && idx <= max_start {
            found = true;
            best = idx;
        }
        proof {
            assert(ci * 512 + 512 == (ci + 1) * 512) by (nonlinear_arith);
            assert(ci + 1 <= n_chunks) by (nonlinear_arith)
                requires
                    ci * 512 < n,
                    n_chunks * 512 >= n,
                    (n_chunks - 1) * 512 <= n - 1,
            ;
        }
        prev = if energy > 33 {
            energy
        } else {
            33
        };
        ci = ci + 1;
        start_m = start_m + 512;
    }
    proof {
        let m = ci as int;
        assert(m == n_chunks) by (nonlinear_arith)
            requires
                m * 512 >= n,
                m == 0 || (m - 1) * 512 < n,
                n_chunks * 512 >= n,
                (n_chunks - 1) * 512 <= n - 1,
                m <= n_chunks,
                n >= 0,
        ;
    }
    best
}

} // verus!
