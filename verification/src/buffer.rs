//! Audio containers: raw captured PCM and the quantized loop buffer.
//!
//! Samples are interleaved Q15 fixed-point values (`SCALE_ONE` = 1.0).

use vstd::prelude::*;

use crate::fixed::{div_trunc, div_round_zero, SCALE_ONE};

verus! {

/// Fixed internal sample rate.
pub const SAMPLE_RATE: u32 = 48000;

/// Fixed internal channel count (stereo).
pub const CHANNELS: u16 = 2;

/// Division rounding to the nearest integer (ties toward the larger value).
pub open spec fn round_div(n: int, d: int) -> int
    recommends
        n >= 0,
        d > 0,
{
    (n + d / 2) / d
}

/// Sum of the first `k` samples of frame `i` in an interleaved sequence
/// with `c` channels.
pub open spec fn frame_sum(s: Seq<i32>, c: int, i: int, k: int) -> int
    decreases k,
{
    if k <= 0 {
        0
    } else {
        frame_sum(s, c, i, k - 1) + s[i * c + (k - 1)]
    }
}

/// The mono mixdown of frame `i`: the truncated average of its channels.
pub open spec fn mono_at(s: Seq<i32>, c: int, i: int) -> int {
    div_trunc(frame_sum(s, c, i, c), c)
}

/// All samples within full scale.
pub open spec fn samples_bounded(s: Seq<i32>) -> bool {
    forall|i: int| 0 <= i < s.len() ==> -SCALE_ONE <= #[trigger] s[i] <= SCALE_ONE
}

/// Raw interleaved PCM as it leaves the decoder.
#[derive(Debug, Clone)]
pub struct RawAudioBuffer {
    /// Interleaved Q15 samples.
    pub samples: Vec<i32>,
    /// Sample rate of the audio.
    pub sample_rate: u32,
    /// Number of interleaved channels.
    pub channels: u16,
}

impl RawAudioBuffer {
    /// Well-formed: whole frames only, a positive rate, and samples in
    /// [-1.0, 1.0] fixed point.
    pub open spec fn wf(&self) -> bool {
        &&& self.channels >= 1
        &&& self.sample_rate >= 1
        &&& self.samples.len() as int % (self.channels as int) == 0
        &&& samples_bounded(self.samples@)
    }

    pub fn new(samples: Vec<i32>, sample_rate: u32, channels: u16) -> (r: Self)
        requires
            channels >= 1,
            sample_rate >= 1,
            samples.len() as int % (channels as int) == 0,
            samples_bounded(samples@),
        ensures
            r.wf(),
            r.samples@ == samples@,
            r.sample_rate == sample_rate,
            r.channels == channels,
    {
        Self { samples, sample_rate, channels }
    }

    /// Number of frames (samples per channel).
    pub fn frame_count(&self) -> (n: usize)
        requires
            self.channels >= 1,
        ensures
            n == self.samples.len() as int / (self.channels as int),
    {
        self.samples.len() / self.channels as usize
    }

    /// Duration in milliseconds, rounded down.
    pub fn duration_millis(&self) -> (ms: u64)
        requires
            self.channels >= 1,
            self.sample_rate >= 1,
            self.samples.len() < 0x1000_0000_0000,
        ensures
            ms == self.samples.len() as int * 1000 / (self.sample_rate as int * self.channels as int),
    {
        let samples_x1000: u64 = (self.samples.len() as u64) * 1000;
        proof {
            let rate = self.sample_rate as int;
            let chans = self.channels as int;
            assert(1 <= rate * chans && rate * chans < 0x1_0000_0000_0000_0000)
                by (nonlinear_arith)
                requires
                    1 <= rate < 0x1_0000_0000,
                    1 <= chans < 0x1_0000,
            ;
        }
        let denom: u64 = (self.sample_rate as u64) * (self.channels as u64);
        samples_x1000 / denom
    }

    /// Mix down to one channel by averaging each frame.
    pub fn to_mono(&self) -> (mono: Vec<i32>)
        requires
            self.wf(),
        ensures
            mono.len() == self.samples.len() as int / (self.channels as int),
            forall|i: int|
                0 <= i < mono.len() ==> #[trigger] mono[i] == mono_at(
                    self.samples@,
                    self.channels as int,
                    i,
                ),
            samples_bounded(mono@),
    {
        let c: usize = self.channels as usize;
        let frames: usize = self.samples.len() / c;
        let mut mono: Vec<i32> = Vec::new();
        let mut i: usize = 0;
        while i < frames
            invariant
                self.wf(),
                c == self.channels as int,
                frames == self.samples.len() as int / (c as int),
                i <= frames,
                mono.len() == i,
                forall|j: int|
                    0 <= j < i ==> #[trigger] mono[j] == mono_at(self.samples@, c as int, j),
                samples_bounded(mono@),
            decreases frames - i,
        {
            proof {
                assert((i + 1) * c as int <= frames * c as int) by (nonlinear_arith)
                    requires
                        i + 1 <= frames,
                        c as int >= 1,
                ;
                assert(frames * c as int <= self.samples.len()) by (nonlinear_arith)
                    requires
                        frames == self.samples.len() as int / (c as int),
                        c as int >= 1,
                        self.samples.len() as int % (c as int) == 0,
                ;
                assert(i as int * c as int + c as int == (i as int + 1) * c as int)
                    by (nonlinear_arith);
            }
            let mut sum: i64 = 0;
            let mut k: usize = 0;
            while k < c
                invariant
                    self.wf(),
                    c == self.channels as int,
                    k <= c,
                    i * c as int + c as int <= self.samples.len(),
                    sum == frame_sum(self.samples@, c as int, i as int, k as int),
                    -(k as int) * SCALE_ONE <= sum <= (k as int) * SCALE_ONE,
                decreases c - k,
            {
                let s: i32 = self.samples[i * c + k];
                proof {
                    assert(-SCALE_ONE <= self.samples@[i as int * c as int + k as int] <= SCALE_ONE);
                    assert(-(k as int + 1) * SCALE_ONE <= sum + s <= (k as int + 1) * SCALE_ONE)
                        by (nonlinear_arith)
                        requires
                            -(k as int) * SCALE_ONE <= sum <= (k as int) * SCALE_ONE,
                            -SCALE_ONE <= s <= SCALE_ONE,
                    ;
                }
                sum = sum + s as i64;
                k = k + 1;
            }
            let avg: i64 = div_round_zero(sum, c as i64);
            proof {
                assert(-(c as int) * SCALE_ONE <= sum <= (c as int) * SCALE_ONE);
                lemma_avg_bounded(sum as int, c as int);
            }
            mono.push(avg as i32);
            i = i + 1;
        }
        mono
    }
}

/// The truncated average of a frame stays within full scale.
proof fn lemma_avg_bounded(sum: int, c: int)
    requires
        c >= 1,
        -c * SCALE_ONE <= sum <= c * SCALE_ONE,
    ensures
        -SCALE_ONE <= div_trunc(sum, c) <= SCALE_ONE,
{
    if sum >= 0 {
        assert(sum / c <= SCALE_ONE) by (nonlinear_arith)
            requires
                c >= 1,
                0 <= sum <= c * SCALE_ONE,
        ;
        assert(sum / c >= 0) by (nonlinear_arith)
            requires
                c >= 1,
                sum >= 0,
        ;
    } else {
        assert((-sum) / c <= SCALE_ONE) by (nonlinear_arith)
            requires
                c >= 1,
                0 <= -sum <= c * SCALE_ONE,
        ;
        assert((-sum) / c >= 0) by (nonlinear_arith)
            requires
                c >= 1,
                -sum >= 0,
        ;
    }
}

/// Metadata carried by a finished loop.
#[derive(Debug, Clone)]
pub struct LoopInfo {
    /// Target/output tempo after any stretching, in thousandths of a BPM.
    pub bpm_milli: u32,
    /// Detected source tempo before stretching, in thousandths of a BPM.
    pub source_bpm_milli: u32,
    /// Detection confidence in thousandths (0..=1000).
    pub bpm_confidence_milli: u32,
    /// Whether time-stretching was applied.
    pub time_stretched: bool,
    /// Number of bars in the loop.
    pub bars: u8,
    /// Beats per bar.
    pub beats_per_bar: u8,
    /// Duration in frames per channel.
    pub duration_samples: usize,
    /// Sample rate.
    pub sample_rate: u32,
}

/// The frame count a loop must have: `bars * beats_per_bar` beats at
/// `bpm_milli / 1000` beats per minute, at `rate` frames per second,
/// rounded to the nearest frame.
pub open spec fn loop_target_frames(bars: int, beats_per_bar: int, bpm_milli: int, rate: int) -> int {
    round_div(bars * beats_per_bar * 60000 * rate, bpm_milli)
}

impl LoopInfo {
    /// Shape invariant for loop metadata.
    pub open spec fn wf(&self) -> bool {
        &&& self.bpm_milli > 0
        &&& self.source_bpm_milli > 0
        &&& self.bpm_confidence_milli <= 1000
        &&& 1 <= self.bars
        &&& 1 <= self.beats_per_bar
        &&& self.sample_rate == SAMPLE_RATE
        &&& self.duration_samples as int == loop_target_frames(
            self.bars as int,
            self.beats_per_bar as int,
            self.bpm_milli as int,
            self.sample_rate as int,
        )
    }

    /// Loop duration in milliseconds, rounded down.
    pub fn duration_millis(&self) -> (ms: u64)
        requires
            self.sample_rate >= 1,
            self.duration_samples < 0x1000_0000_0000,
        ensures
            ms == self.duration_samples * 1000 / (self.sample_rate as int),
    {
        (self.duration_samples as u64) * 1000 / (self.sample_rate as u64)
    }
}

/// Immutable loop buffer handed to playback.
#[derive(Debug, Clone)]
pub struct LoopBuffer {
    /// Interleaved stereo Q15 samples.
    pub samples: Vec<i32>,
    /// Metadata about the loop.
    pub loop_info: LoopInfo,
}

impl LoopBuffer {
    /// The loop invariant: stereo, full scale respected, and the length
    /// pinned to the bar count and tempo of its metadata.
    pub open spec fn wf(&self) -> bool {
        &&& self.loop_info.wf()
        &&& self.samples.len() == self.loop_info.duration_samples as int * (CHANNELS as int)
        &&& samples_bounded(self.samples@)
    }

    pub fn new(samples: Vec<i32>, loop_info: LoopInfo) -> (r: Self)
        requires
            loop_info.wf(),
            samples.len() == loop_info.duration_samples as int * (CHANNELS as int),
            samples_bounded(samples@),
        ensures
            r.wf(),
            r.samples@ == samples@,
            r.loop_info == loop_info,
    {
        Self { samples, loop_info }
    }

    /// Sample rate of the loop.
    pub fn sample_rate(&self) -> (r: u32)
        ensures
            r == self.loop_info.sample_rate,
    {
        self.loop_info.sample_rate
    }

    /// Loop duration in milliseconds, rounded down.
    pub fn duration_millis(&self) -> (ms: u64)
        requires
            self.loop_info.sample_rate >= 1,
            self.loop_info.duration_samples < 0x1000_0000_0000,
        ensures
            ms == self.loop_info.duration_samples * 1000 / (self.loop_info.sample_rate as int),
    {
        self.loop_info.duration_millis()
    }

    /// Number of frames (samples per channel).
    pub fn frame_count(&self) -> (n: usize)
        ensures
            n == self.samples.len() as int / (CHANNELS as int),
    {
        self.samples.len() / CHANNELS as usize
    }

    /// Number of frames in one bar.
    pub fn samples_per_bar(&self) -> (n: usize)
        requires
            self.loop_info.bars >= 1,
        ensures
            n == self.loop_info.duration_samples as int / (self.loop_info.bars as int),
    {
        self.loop_info.duration_samples / self.loop_info.bars as usize
    }
}

/// When one beat is a whole number of frames — the tempo divides the
/// frame clock exactly — the loop length factors into bars, beats per
/// bar, frames per beat and channels. (With a tempo that does not
/// divide the clock the total is rounded once, not per beat.)
pub proof fn lemma_loop_len_factors(b: LoopBuffer)
    requires
        b.wf(),
        (60000 * b.loop_info.sample_rate as int) % (b.loop_info.bpm_milli as int) == 0,
    ensures
        b.samples.len() == b.loop_info.bars as int * b.loop_info.beats_per_bar as int * round_div(
            60000 * b.loop_info.sample_rate as int,
            b.loop_info.bpm_milli as int,
        ) * (CHANNELS as int),
{
    let bars = b.loop_info.bars as int;
    let bpb = b.loop_info.beats_per_bar as int;
    let bpm = b.loop_info.bpm_milli as int;
    let rate = b.loop_info.sample_rate as int;
    let q = (60000 * rate) / bpm;
    assert(60000 * rate == q * bpm) by (nonlinear_arith)
        requires
            bpm >= 1,
            q == (60000 * rate) / bpm,
            (60000 * rate) % bpm == 0,
    ;
    assert(round_div(q * bpm, bpm) == q) by (nonlinear_arith)
        requires
            bpm >= 1,
            q >= 0,
    ;
    assert(bars * bpb * (60000 * rate) == (bars * bpb * q) * bpm) by (nonlinear_arith)
        requires
            60000 * rate == q * bpm,
    ;
    assert(round_div((bars * bpb * q) * bpm, bpm) == bars * bpb * q) by (nonlinear_arith)
        requires
            bpm >= 1,
            bars * bpb * q >= 0,
    ;
    assert(bars * bpb * 60000 * rate == bars * bpb * (60000 * rate)) by (nonlinear_arith);
    assert(b.loop_info.duration_samples as int == bars * bpb * q);
    assert(bars * bpb * q * 2 == (bars * bpb * q) * 2) by (nonlinear_arith);
}

} // verus!
