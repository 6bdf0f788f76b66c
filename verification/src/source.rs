//! One-shot playback source: a finite cursor over a loop's samples that
//! applies an equal-power crossfade envelope at both ends.
//!
//! The fade-in gain follows a quarter-sine ramp; the fade-out gain is
//! constructed as the exact complement `sqrt(1 - gain_in^2)`, so the two
//! squared gains always sum to full power.

use vstd::prelude::*;

use crate::buffer::{LoopBuffer, CHANNELS, SAMPLE_RATE};
use crate::fixed::{div_trunc, div_round_zero, isqrt, lemma_sqrt_floor_exists, sqrt_floor,
    SCALE_ONE};

verus! {

/// Full power: `SCALE_ONE` squared.
pub const POWER_ONE: i64 = 0x4000_0000;

/// Default crossfade length in interleaved samples when no tempo is
/// known: half a second of stereo at the fixed rate.
pub const DEFAULT_CROSSFADE_SAMPLES: u64 = 48000;

/// Fade progress for `pos` within a fade of `fade` samples, as a Q15
/// fraction in [0, 32768).
pub open spec fn fade_t(pos: int, fade: int) -> int
    recommends
        fade > 0,
{
    pos * 32768 / fade
}

/// Quarter-sine fade gain at progress `t` (Q15 in [0, 32768]): a
/// rational approximation of `sin(t * pi / 2)` that is exact at both
/// endpoints.
pub open spec fn sin_gain(t: int) -> int {
    let w = t * (65536 - t) / 32768;
    w * 131072 / (163840 - w)
}

/// Complementary fade gain: the floor square root of the remaining
/// power, `sqrt(1 - sin_gain(t)^2)`.
pub open spec fn cos_gain(t: int) -> int {
    sqrt_floor(POWER_ONE - sin_gain(t) * sin_gain(t))
}

/// The quarter-sine gain stays within [0, SCALE_ONE] for any progress
/// in [0, 32768].
pub proof fn lemma_sin_gain_bounded(t: int)
    requires
        0 <= t <= 32768,
    ensures
        0 <= sin_gain(t) <= SCALE_ONE,
{
    let w = t * (65536 - t) / 32768;
    assert(0 <= t * (65536 - t) <= 32768 * 32768) by (nonlinear_arith)
        requires
            0 <= t <= 32768,
    ;
    assert(0 <= w <= 32768) by (nonlinear_arith)
        requires
            0 <= t * (65536 - t) <= 32768 * 32768,
            w == t * (65536 - t) / 32768,
    ;
    assert(0 <= w * 131072 / (163840 - w) <= 32768) by (nonlinear_arith)
        requires
            0 <= w <= 32768,
    ;
}

/// Equal-power law of the crossfade envelope: at any progress the
/// squared fade-in and fade-out gains sum to full power, up to the
/// rounding of the square root (a relative error under 0.01%).
pub proof fn lemma_equal_power(t: int)
    requires
        0 <= t <= 32768,
    ensures
        POWER_ONE - 66000 < sin_gain(t) * sin_gain(t) + cos_gain(t) * cos_gain(t) <= POWER_ONE,
{
    lemma_sin_gain_bounded(t);
    let s = sin_gain(t);
    let x = POWER_ONE - s * s;
    assert(0 <= s * s <= POWER_ONE) by (nonlinear_arith)
        requires
            0 <= s <= SCALE_ONE,
    ;
    lemma_sqrt_floor_exists(x);
    let c = sqrt_floor(x);
    assert(c * c <= x);
    assert(x < (c + 1) * (c + 1));
    assert(c <= 32768) by (nonlinear_arith)
        requires
            0 <= c,
            c * c <= 0x4000_0000,
    ;
    assert((c + 1) * (c + 1) == c * c + 2 * c + 1) by (nonlinear_arith);
}

/// A loop buffer played once through an equal-power envelope.
#[derive(Debug, Clone)]
pub struct OneShotSource {
    /// Interleaved Q15 samples.
    pub samples: Vec<i32>,
    /// Current playback position (interleaved sample index).
    pub position: usize,
    /// Total number of interleaved samples.
    pub total_samples: usize,
    /// Number of interleaved samples in each fade region.
    pub fade_samples: usize,
    /// Whether to apply the fade-in at the start.
    pub fade_in: bool,
    /// Whether to apply the fade-out at the end.
    pub fade_out: bool,
}

/// The fade-in gain the source applies at `pos`.
pub open spec fn fade_in_gain_spec(src: OneShotSource, pos: int) -> int {
    if !src.fade_in || pos >= src.fade_samples {
        SCALE_ONE as int
    } else {
        sin_gain(fade_t(pos, src.fade_samples as int))
    }
}

/// The fade-out gain the source applies at `pos`.
pub open spec fn fade_out_gain_spec(src: OneShotSource, pos: int) -> int {
    let fade_start = src.total_samples - src.fade_samples;
    if !src.fade_out || src.fade_samples == 0 || pos < fade_start {
        SCALE_ONE as int
    } else {
        cos_gain(fade_t(pos - fade_start, src.fade_samples as int))
    }
}

/// The enveloped sample the source emits at `pos`: the raw sample scaled
/// by both gains in Q15.
pub open spec fn emitted_at(src: OneShotSource, pos: int) -> int {
    let combined = div_trunc(fade_in_gain_spec(src, pos) * fade_out_gain_spec(src, pos), 32768);
    div_trunc(src.samples[pos] * combined, 32768)
}

impl OneShotSource {
    /// Structural invariant: the cursor stays within the buffer and the
    /// fades cover at most half of it each.
    pub open spec fn wf(&self) -> bool {
        &&& self.total_samples == self.samples.len()
        &&& self.total_samples < 0x1000_0000_0000
        &&& self.position <= self.total_samples
        &&& self.fade_samples <= self.total_samples as int / 2
        &&& crate::buffer::samples_bounded(self.samples@)
    }

    /// Wrap a loop for one playback with both fades enabled.
    pub fn new(buffer: LoopBuffer) -> (src: Self)
        requires
            crate::buffer::samples_bounded(buffer.samples@),
            buffer.samples.len() < 0x1000_0000_0000,
        ensures
            src.wf(),
            src.position == 0,
            src.samples@ == buffer.samples@,
            src.fade_in && src.fade_out,
            src.fade_samples == fade_len_for(
                buffer.loop_info.bpm_milli as int,
                buffer.samples.len() as int,
            ),
    {
        Self::with_fades(buffer, true, true)
    }

    /// Wrap a loop for one playback, choosing which fades to apply.
    ///
    /// The fade region is one beat at the loop's tempo (half a second if
    /// the tempo is unknown), capped at half the clip.
    pub fn with_fades(buffer: LoopBuffer, fade_in: bool, fade_out: bool) -> (src: Self)
        requires
            crate::buffer::samples_bounded(buffer.samples@),
            buffer.samples.len() < 0x1000_0000_0000,
        ensures
            src.wf(),
            src.position == 0,
            src.samples@ == buffer.samples@,
            src.fade_in == fade_in,
            src.fade_out == fade_out,
            src.fade_samples == fade_len_for(
                buffer.loop_info.bpm_milli as int,
                buffer.samples.len() as int,
            ),
    {
        let total_samples: usize = buffer.samples.len();
        let bpm_milli: u32 = buffer.loop_info.bpm_milli;
        let beat: u64 = if bpm_milli > 0 {
            5_760_000_000u64 / (bpm_milli as u64)
        } else {
            DEFAULT_CROSSFADE_SAMPLES
        };
        let cap: u64 = (total_samples / 2) as u64;
        let fade_samples: usize = if beat < cap {
            beat as usize
        } else {
            total_samples / 2
        };
        Self {
            samples: buffer.samples,
            position: 0,
            total_samples,
            fade_samples,
            fade_in,
            fade_out,
        }
    }

    /// Equal-power fade-in gain at `position` (Q15).
    pub fn fade_in_gain(&self, position: usize) -> (g: i32)
        requires
            self.wf(),
            position <= self.total_samples,
        ensures
            g == fade_in_gain_spec(*self, position as int),
            0 <= g <= SCALE_ONE,
    {
        if !self.fade_in || position >= self.fade_samples {
            return SCALE_ONE;
        }
        let fade = self.fade_samples as u64;
        let t: u64 = (position as u64) * 32768 / fade;
        proof {
            assert(position as int * 32768 / (fade as int) < 32768) by (nonlinear_arith)
                requires
                    0 <= position as int && (position as int) < fade as int,
                    fade as int > 0,
            ;
            assert(position as int * 32768 / (fade as int) >= 0) by (nonlinear_arith)
                requires
                    position as int >= 0,
                    fade as int > 0,
            ;
            assert(position as int * 32768 < 0x1000_0000_0000int * 32768) by (nonlinear_arith)
                requires
                    0 <= position as int && (position as int) < 0x1000_0000_0000int,
            ;
        }
        let g = sin_gain_exec(t as i64);
        proof {
            lemma_sin_gain_bounded(t as int);
        }
        g as i32
    }

    /// Equal-power fade-out gain at `position` (Q15).
    pub fn fade_out_gain(&self, position: usize) -> (g: i32)
        requires
            self.wf(),
            position <= self.total_samples,
        ensures
            g == fade_out_gain_spec(*self, position as int),
            0 <= g <= SCALE_ONE,
    {
        if !self.fade_out || self.fade_samples == 0 {
            return SCALE_ONE;
        }
        let fade_start: usize = self.total_samples - self.fade_samples;
        if position < fade_start {
            return SCALE_ONE;
        }
        let fade = self.fade_samples as u64;
        let off: u64 = (position - fade_start) as u64;
        let t: u64 = off * 32768 / fade;
        proof {
            assert(off as int * 32768 < 0x1000_0000_0000int * 32768) by (nonlinear_arith)
                requires
                    0 <= off as int && (off as int) < 0x1000_0000_0000int,
            ;
            assert(off as int * 32768 / (fade as int) >= 0) by (nonlinear_arith)
                requires
                    off as int >= 0,
                    fade as int > 0,
            ;
            assert(off as int * 32768 / (fade as int) <= 32768) by (nonlinear_arith)
                requires
                    0 <= off as int <= fade as int,
                    fade as int > 0,
            ;
        }
        let s = sin_gain_exec(t as i64);
        proof {
            lemma_t_in_range(off as int, fade as int);
            lemma_sin_gain_bounded(t as int);
            assert(0 <= s * s <= 0x4000_0000) by (nonlinear_arith)
                requires
                    0 <= s <= 32768,
            ;
        }
        let rest: u64 = (POWER_ONE - s * s) as u64;
        let c: u64 = isqrt(rest);
        proof {
            crate::fixed::lemma_sqrt_floor_is(rest as int, c as int);
            assert(c as int * c as int <= 0x4000_0000);
            assert(c <= 32768) by (nonlinear_arith)
                requires
                    0 <= c,
                    c as int * c as int <= 0x4000_0000,
            ;
        }
        c as i32
    }

    /// Emit the next enveloped sample, or `None` once every sample of
    /// the clip has been produced exactly once.
    pub fn next_sample(&mut self) -> (r: Option<i32>)
        requires
            old(self).wf(),
        ensures
            final(self).wf(),
            final(self).samples@ == old(self).samples@,
            final(self).total_samples == old(self).total_samples,
            final(self).fade_samples == old(self).fade_samples,
            final(self).fade_in == old(self).fade_in,
            final(self).fade_out == old(self).fade_out,
            old(self).position < old(self).total_samples ==> {
                &&& final(self).position == old(self).position + 1
                &&& r == Some((emitted_at(*old(self), old(self).position as int)) as i32)
            },
            old(self).position >= old(self).total_samples ==> {
                &&& final(self).position == old(self).position
                &&& r is None
            },
    {
        if self.position >= self.total_samples {
            return None;
        }
        let s: i32 = self.samples[self.position];
        proof {
            assert(-SCALE_ONE <= self.samples@[self.position as int] <= SCALE_ONE);
        }
        let g_in: i32 = self.fade_in_gain(self.position);
        let g_out: i32 = self.fade_out_gain(self.position);
        let combined: i64 = div_round_zero((g_in as i64) * (g_out as i64), 32768);
        proof {
            assert(0 <= g_in as int * g_out as int <= 0x4000_0000) by (nonlinear_arith)
                requires
                    0 <= g_in <= 32768,
                    0 <= g_out <= 32768,
            ;
            assert(0 <= div_trunc(g_in as int * g_out as int, 32768) <= 32768) by (nonlinear_arith)
                requires
                    0 <= g_in as int * g_out as int <= 0x4000_0000,
            ;
        }
        proof {
            assert(-0x4000_0000 <= s as int * combined <= 0x4000_0000) by (nonlinear_arith)
                requires
                    -32768 <= s as int <= 32768,
                    0 <= combined <= 32768,
            ;
        }
        let value: i64 = div_round_zero((s as i64) * combined, 32768);
        proof {
            lemma_scale_bounded(s as int, combined as int);
        }
        self.position = self.position + 1;
        Some(value as i32)
    }

    /// Remaining frames before the source ends.
    pub fn remaining_frames(&self) -> (n: usize)
        requires
            self.wf(),
        ensures
            n == (self.total_samples - self.position) / (CHANNELS as int),
    {
        (self.total_samples - self.position) / CHANNELS as usize
    }

    /// Channel count of the emitted stream.
    pub fn channels(&self) -> (c: u16)
        ensures
            c == CHANNELS,
    {
        CHANNELS
    }

    /// Sample rate of the emitted stream.
    pub fn sample_rate(&self) -> (r: u32)
        ensures
            r == SAMPLE_RATE,
    {
        SAMPLE_RATE
    }

    /// Total duration of the source in milliseconds, rounded down.
    pub fn total_duration_millis(&self) -> (ms: u64)
        requires
            self.total_samples < 0x1000_0000_0000,
        ensures
            ms == self.total_samples as int * 1000 / ((SAMPLE_RATE as int) * (CHANNELS as int)),
    {
        (self.total_samples as u64) * 1000 / 96000
    }
}


/// The enveloped sample at the cursor stays within full scale.
pub proof fn lemma_emitted_bounded(src: OneShotSource)
    requires
        src.wf(),
        src.position < src.samples.len(),
    ensures
        -32768 <= emitted_at(src, src.position as int) <= 32768,
{
    let pos = src.position as int;
    let g_in = fade_in_gain_spec(src, pos);
    let g_out = fade_out_gain_spec(src, pos);
    if src.fade_in && pos < src.fade_samples {
        lemma_t_in_range(pos, src.fade_samples as int);
        lemma_sin_gain_bounded(fade_t(pos, src.fade_samples as int));
    }
    assert(0 <= g_in <= 32768);
    let fade_start = src.total_samples - src.fade_samples;
    if src.fade_out && src.fade_samples != 0 && pos >= fade_start {
        let t = fade_t(pos - fade_start, src.fade_samples as int);
        lemma_t_in_range(pos - fade_start, src.fade_samples as int);
        lemma_sin_gain_bounded(t);
        let sg = sin_gain(t);
        let x = POWER_ONE - sg * sg;
        assert(0 <= sg * sg <= POWER_ONE) by (nonlinear_arith)
            requires
                0 <= sg <= 32768,
        ;
        lemma_sqrt_floor_exists(x);
        let c = sqrt_floor(x);
        assert(c <= 32768) by (nonlinear_arith)
            requires
                0 <= c,
                c * c <= 0x4000_0000,
        ;
    }
    assert(0 <= g_out <= 32768);
    assert(0 <= g_in * g_out <= 0x4000_0000) by (nonlinear_arith)
        requires
            0 <= g_in <= 32768,
            0 <= g_out <= 32768,
    ;
    assert(0 <= div_trunc(g_in * g_out, 32768) <= 32768) by (nonlinear_arith)
        requires
            0 <= g_in * g_out <= 0x4000_0000,
    ;
    assert(-32768 <= src.samples@[pos] <= 32768);
    lemma_scale_bounded(src.samples@[pos] as int, div_trunc(g_in * g_out, 32768));
}

/// The interleaved fade length for a tempo: one beat, or half a second
/// when the tempo is unknown, capped at half the clip.
pub open spec fn fade_len_for(bpm_milli: int, total_samples: int) -> int {
    let beat = if bpm_milli > 0 {
        5_760_000_000int / bpm_milli
    } else {
        DEFAULT_CROSSFADE_SAMPLES as int
    };
    if beat < total_samples / 2 {
        beat
    } else {
        total_samples / 2
    }
}

/// Fade progress stays in [0, 32768] for offsets within the fade.
proof fn lemma_t_in_range(off: int, fade: int)
    requires
        0 <= off,
        fade > 0,
    ensures
        0 <= off * 32768 / fade,
        off < fade ==> off * 32768 / fade < 32768,
        off >= fade ==> off * 32768 / fade >= 32768,
    // callers pass offsets below the fade length
{
    assert(off * 32768 / fade >= 0) by (nonlinear_arith)
        requires
            off >= 0,
            fade > 0,
    ;
    if off < fade {
        assert(off * 32768 / fade < 32768) by (nonlinear_arith)
            requires
                0 <= off < fade,
                fade > 0,
        ;
    } else {
        assert(off * 32768 / fade >= 32768) by (nonlinear_arith)
            requires
                off >= fade,
                fade > 0,
        ;
    }
}

/// Scaling a full-scale sample by a Q15 gain keeps it within full scale.
pub(crate) proof fn lemma_scale_bounded(s: int, g: int)
    requires
        -32768 <= s <= 32768,
        0 <= g <= 32768,
    ensures
        -32768 <= div_trunc(s * g, 32768) <= 32768,
{
    assert(-0x4000_0000 <= s * g <= 0x4000_0000) by (nonlinear_arith)
        requires
            -32768 <= s <= 32768,
            0 <= g <= 32768,
    ;
    if s * g >= 0 {
        assert(s * g / 32768 <= 32768) by (nonlinear_arith)
            requires
                0 <= s * g <= 0x4000_0000,
        ;
    } else {
        assert((-(s * g)) / 32768 <= 32768) by (nonlinear_arith)
            requires
                0 <= -(s * g) <= 0x4000_0000,
        ;
    }
}

/// Quarter-sine gain, the executable mirror of `sin_gain`.
pub(crate) fn sin_gain_exec(t: i64) -> (g: i64)
    requires
        0 <= t <= 32768,
    ensures
        g == sin_gain(t as int),
{
    proof {
        assert(0 <= t * (65536 - t) <= 32768 * 32768) by (nonlinear_arith)
            requires
                0 <= t <= 32768,
        ;
    }
    let w: i64 = t * (65536 - t) / 32768;
    proof {
        assert(0 <= w <= 32768) by (nonlinear_arith)
            requires
                0 <= t * (65536 - t) <= 32768 * 32768,
                w == t * (65536 - t) / 32768,
        ;
        assert(w * 131072 <= 32768 * 131072) by (nonlinear_arith)
            requires
                0 <= w <= 32768,
        ;
    }
    let g: i64 = w * 131072 / (163840 - w);
    g
}

} // verus!
