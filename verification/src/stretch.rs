//! Time-stretch support: channel (de)interleaving and the stretch plan.
//!
//! The pitch-preserving resampler itself runs outside the library on the
//! hardware sample format; everything it is told to do — whether to run,
//! and how many frames to produce — is decided here.

use vstd::prelude::*;

use crate::buffer::round_div;

verus! {

/// The samples at even positions (left channel of an interleaved pair).
pub open spec fn even_elems(s: Seq<i32>) -> Seq<i32> {
    Seq::new((s.len() / 2) as nat, |i: int| s[2 * i])
}

/// The samples at odd positions (right channel of an interleaved pair).
pub open spec fn odd_elems(s: Seq<i32>) -> Seq<i32> {
    Seq::new((s.len() / 2) as nat, |i: int| s[2 * i + 1])
}

/// Two equal-length channels woven back into one interleaved sequence.
pub open spec fn interleaved(l: Seq<i32>, r: Seq<i32>) -> Seq<i32>
    recommends
        l.len() == r.len(),
{
    Seq::new((l.len() * 2) as nat, |i: int| if i % 2 == 0 { l[i / 2] } else { r[i / 2] })
}

/// De-interleaving then interleaving an even-length sequence gives the
/// sequence back unchanged.
pub proof fn lemma_deinterleave_interleave_roundtrip(s: Seq<i32>)
    requires
        s.len() % 2 == 0,
    ensures
        interleaved(even_elems(s), odd_elems(s)) == s,
{
    let t = interleaved(even_elems(s), odd_elems(s));
    assert forall|i: int| 0 <= i < t.len() implies t[i] == s[i] by {
        if i % 2 == 0 {
            assert(t[i] == even_elems(s)[i / 2]);
        } else {
            assert(t[i] == odd_elems(s)[i / 2]);
            assert(2 * (i / 2) + 1 == i);
        }
    }
    assert(t =~= s);
}

/// Split interleaved stereo samples into left and right channels.
pub fn deinterleave(samples: &Vec<i32>) -> (r: (Vec<i32>, Vec<i32>))
    requires
        samples.len() % 2 == 0,
    ensures
        r.0@ == even_elems(samples@),
        r.1@ == odd_elems(samples@),
{
    let frames: usize = samples.len() / 2;
    let mut left: Vec<i32> = Vec::new();
    let mut right: Vec<i32> = Vec::new();
    let mut i: usize = 0;
    while i < frames
        invariant
            samples.len() % 2 == 0,
            frames == samples.len() as int / 2,
            i <= frames,
            left.len() == i,
            right.len() == i,
            forall|j: int| 0 <= j < i ==> #[trigger] left[j] == samples[2 * j],
            forall|j: int| 0 <= j < i ==> #[trigger] right[j] == samples[2 * j + 1],
        decreases frames - i,
    {
        left.push(samples[2 * i]);
        right.push(samples[2 * i + 1]);
        i = i + 1;
    }
    proof {
        assert(left@ =~= even_elems(samples@));
        assert(right@ =~= odd_elems(samples@));
    }
    (left, right)
}

/// Weave two equal-length channels into interleaved stereo samples.
pub fn interleave(left: &Vec<i32>, right: &Vec<i32>) -> (r: Vec<i32>)
    requires
        left.len() == right.len(),
    ensures
        r@ == interleaved(left@, right@),
{
    let frames: usize = left.len();
    let mut out: Vec<i32> = Vec::new();
    let mut i: usize = 0;
    while i < frames
        invariant
            left.len() == frames,
            right.len() == frames,
            i <= frames,
            out.len() == 2 * i,
            forall|j: int| 0 <= j < i ==> #[trigger] out[2 * j] == left[j],
            forall|j: int| 0 <= j < i ==> #[trigger] out[2 * j + 1] == right[j],
        decreases frames - i,
    {
        out.push(left[i]);
        out.push(right[i]);
        i = i + 1;
    }
    proof {
        assert forall|j: int| 0 <= j < out.len() implies out[j] == interleaved(left@, right@)[j] by {
            if j % 2 == 0 {
                assert(out[2 * (j / 2)] == left@[j / 2]);
            } else {
                assert(out[2 * (j / 2) + 1] == right@[j / 2]);
                assert(2 * (j / 2) + 1 == j);
            }
        }
        assert(out@ =~= interleaved(left@, right@));
    }
    out
}

/// What the resampler is asked to do for one clip.
#[derive(Debug, Clone, Copy)]
pub struct StretchPlan {
    /// True when the tempo change is under 1% and the audio passes
    /// through unchanged.
    pub skip: bool,
    /// Frames the stretched output must have.
    pub output_frames: u64,
    /// True when the ratio leaves the range [0.75, 1.5] and quality may
    /// degrade.
    pub quality_warning: bool,
}

/// Decide whether to stretch and to what length, for a tempo change from
/// `source_bpm_milli` to `target_bpm_milli` over `input_frames` frames.
///
/// The stretch ratio is `source_bpm / target_bpm`; a ratio within 1% of
/// unity skips the stretch, otherwise the output must hold
/// `round(input_frames * ratio)` frames. Stretching to the tempo the
/// audio already has therefore always preserves the length exactly.
pub fn stretch_plan(source_bpm_milli: u32, target_bpm_milli: u32, input_frames: usize) -> (p:
    StretchPlan)
    requires
        0 < source_bpm_milli < 0x8000_0000,
        0 < target_bpm_milli < 0x8000_0000,
        input_frames < 0x1_0000_0000,
    ensures
        p.skip <==> 100 * abs_diff(source_bpm_milli as int, target_bpm_milli as int)
            < target_bpm_milli as int,
        p.skip ==> p.output_frames == input_frames,
        !p.skip ==> p.output_frames as int == round_div(
            input_frames as int * source_bpm_milli as int,
            target_bpm_milli as int,
        ),
        source_bpm_milli == target_bpm_milli ==> p.skip && p.output_frames == input_frames,
        p.quality_warning <==> 4 * source_bpm_milli < 3 * target_bpm_milli || 2
            * source_bpm_milli > 3 * target_bpm_milli,
{
    let src: u64 = source_bpm_milli as u64;
    let tgt: u64 = target_bpm_milli as u64;
    let diff: u64 = if src >= tgt {
        src - tgt
    } else {
        tgt - src
    };
    let skip: bool = 100 * diff < tgt;
    let quality_warning: bool = 4 * src < 3 * tgt || 2 * src > 3 * tgt;
    let output_frames: u64 = if skip {
        input_frames as u64
    } else {
        proof {
            assert(input_frames as int * (src as int) <= 0x1_0000_0000int * 0x8000_0000int)
                by (nonlinear_arith)
                requires
                    0 <= input_frames as int <= 0x1_0000_0000int,
                    0 <= src as int <= 0x8000_0000int,
            ;
        }
        let n: u64 = (input_frames as u64) * src;
        let rounded: u64 = (n + tgt / 2) / tgt;
        rounded
    };
    StretchPlan { skip, output_frames, quality_warning }
}

/// Absolute difference of two integers.
pub open spec fn abs_diff(a: int, b: int) -> int {
    if a >= b {
        a - b
    } else {
        b - a
    }
}

} // verus!
