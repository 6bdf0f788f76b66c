//! Playback-side state: the audio device descriptor and the engine's
//! sink — an ordered FIFO of one-shot sources with a cursor into the
//! head. The device handles and the hardware callback live outside the
//! library; what they sample out is decided here.

use vstd::prelude::*;

use crate::buffer::LoopBuffer;
use crate::fixed::div_trunc;
use crate::source::{emitted_at, OneShotSource};

verus! {

/// An audio output device as shown to the user.
#[derive(Debug, Clone)]
pub struct AudioDevice {
    /// Human-readable device name.
    pub name: String,
    /// Index in the enumeration order of the host.
    pub index: usize,
}

/// The device list never offered to the user empty: an enumeration that
/// found nothing is replaced by a single default entry at index 0.
pub fn ensure_device_listed(devices: Vec<AudioDevice>) -> (r: Vec<AudioDevice>)
    ensures
        r.len() >= 1,
        devices.len() > 0 ==> r@ == devices@,
        devices.len() == 0 ==> r.len() == 1 && r[0].index == 0,
{
    if devices.len() == 0 {
        let mut r: Vec<AudioDevice> = Vec::new();
        r.push(AudioDevice { name: default_device_name(), index: 0 });
        r
    } else {
        devices
    }
}

/// The name used for the fallback entry when no device can be listed.
pub fn default_device_name() -> (s: String) {
    "Default".to_owned()
}

/// Which device the engine ends up on.
#[derive(Debug, Clone, Copy, PartialEq, Eq, Structural)]
pub enum DeviceChoice {
    /// The requested device opened and is used.
    Requested,
    /// The default device is used.
    Default,
}

/// Decide where playback opens: a requested device that opened is
/// used; a requested device that failed falls back to the default and
/// surfaces a non-fatal notice; no request goes straight to the
/// default.
pub fn device_open_plan(requested: Option<usize>, requested_opened: bool) -> (r: (
    DeviceChoice,
    bool,
))
    ensures
        (requested is Some && requested_opened) ==> r == (DeviceChoice::Requested, false),
        (requested is Some && !requested_opened) ==> r == (DeviceChoice::Default, true),
        requested is None ==> r == (DeviceChoice::Default, false),
{
    match requested {
        Some(_) => {
            if requested_opened {
                (DeviceChoice::Requested, false)
            } else {
                (DeviceChoice::Default, true)
            }
        },
        None => (DeviceChoice::Default, false),
    }
}

/// A sample scaled by the sink volume (thousandths), truncating.
pub open spec fn volume_scaled(v: int, volume_milli: int) -> int {
    div_trunc(v * volume_milli, 1000)
}

/// The engine's playback state: an ordered FIFO of one-shot sources.
/// The head is the source being sampled; it plays strictly first.
#[derive(Debug)]
pub struct PlaybackQueue {
    /// Pending sources, the head first.
    pub queue: Vec<OneShotSource>,
    /// Whether the sink is paused.
    pub paused: bool,
    /// Volume in thousandths (1000 = unity).
    pub volume_milli: u32,
}

impl PlaybackQueue {
    /// Every queued source is well formed and the volume is in range.
    pub open spec fn wf(&self) -> bool {
        &&& forall|i: int| 0 <= i < self.queue.len() ==> (#[trigger] self.queue[i]).wf()
        &&& self.volume_milli <= 1000
    }

    /// An empty sink at unity volume.
    pub fn new() -> (q: Self)
        ensures
            q.wf(),
            q.queue.len() == 0,
            !q.paused,
            q.volume_milli == 1000,
    {
        PlaybackQueue { queue: Vec::new(), paused: false, volume_milli: 1000 }
    }

    /// Clear the sink and start this buffer at once.
    pub fn play(&mut self, buffer: LoopBuffer)
        requires
            old(self).wf(),
            crate::buffer::samples_bounded(buffer.samples@),
            buffer.samples.len() < 0x1000_0000_0000,
        ensures
            final(self).wf(),
            final(self).queue.len() == 1,
            final(self).queue[0].samples@ == buffer.samples@,
            final(self).queue[0].position == 0,
            !final(self).paused,
            final(self).volume_milli == old(self).volume_milli,
    {
        let source = OneShotSource::new(buffer);
        self.queue = Vec::new();
        self.queue.push(source);
        self.paused = false;
    }

    /// Queue this buffer after the current ones and make sure the sink
    /// plays.
    pub fn append(&mut self, buffer: LoopBuffer)
        requires
            old(self).wf(),
            crate::buffer::samples_bounded(buffer.samples@),
            buffer.samples.len() < 0x1000_0000_0000,
        ensures
            final(self).wf(),
            final(self).queue.len() == old(self).queue.len() + 1,
            forall|i: int| 0 <= i < old(self).queue.len() ==> final(self).queue[i] == old(
                self,
            ).queue[i],
            final(self).queue[old(self).queue.len() as int].samples@ == buffer.samples@,
            final(self).queue[old(self).queue.len() as int].position == 0,
            !final(self).paused,
            final(self).volume_milli == old(self).volume_milli,
    {
        let source = OneShotSource::new(buffer);
        self.queue.push(source);
        self.paused = false;
    }

    /// Drop the currently playing source; the next queued one begins at
    /// the very next sample.
    pub fn skip_one(&mut self)
        requires
            old(self).wf(),
        ensures
            final(self).wf(),
            old(self).queue.len() == 0 ==> final(self).queue@ == old(self).queue@,
            old(self).queue.len() > 0 ==> final(self).queue@ == old(self).queue@.subrange(
                1,
                old(self).queue.len() as int,
            ),
            final(self).paused == old(self).paused,
            final(self).volume_milli == old(self).volume_milli,
    {
        if self.queue.len() > 0 {
            let _ = self.queue.remove(0);
        }
    }

    /// Empty the sink.
    pub fn stop(&mut self)
        requires
            old(self).wf(),
        ensures
            final(self).wf(),
            final(self).queue.len() == 0,
            final(self).volume_milli == old(self).volume_milli,
    {
        self.queue = Vec::new();
    }

    /// Number of queued sources.
    pub fn queue_len(&self) -> (n: usize)
        ensures
            n == self.queue.len(),
    {
        self.queue.len()
    }

    /// Whether playback has finished: nothing queued.
    pub fn is_finished(&self) -> (r: bool)
        ensures
            r == (self.queue.len() == 0),
    {
        self.queue.len() == 0
    }

    /// Whether audio is playing: something queued and not paused.
    pub fn is_playing(&self) -> (r: bool)
        ensures
            r == (self.queue.len() > 0 && !self.paused),
    {
        self.queue.len() > 0 && !self.paused
    }

    /// Pause the sink.
    pub fn pause(&mut self)
        requires
            old(self).wf(),
        ensures
            final(self).wf(),
            final(self).paused,
            final(self).queue@ == old(self).queue@,
    {
        self.paused = true;
    }

    /// Resume the sink.
    pub fn resume(&mut self)
        requires
            old(self).wf(),
        ensures
            final(self).wf(),
            !final(self).paused,
            final(self).queue@ == old(self).queue@,
    {
        self.paused = false;
    }

    /// Set the volume, clamped to [0, 1].
    pub fn set_volume(&mut self, volume_milli: u32)
        requires
            old(self).wf(),
        ensures
            final(self).wf(),
            final(self).volume_milli == crate::bpm::clamp_int(volume_milli as int, 0, 1000),
            final(self).queue@ == old(self).queue@,
    {
        self.volume_milli = if volume_milli > 1000 {
            1000
        } else {
            volume_milli
        };
    }

    /// Current volume in thousandths.
    pub fn volume(&self) -> (v: u32)
        ensures
            v == self.volume_milli,
    {
        self.volume_milli
    }

    /// One step of the audio callback. A paused or empty sink yields
    /// nothing; an exhausted head is dropped (its end-of-stream tick);
    /// otherwise the head emits its next enveloped sample, scaled by
    /// the volume.
    pub fn next_sample(&mut self) -> (r: Option<i32>)
        requires
            old(self).wf(),
        ensures
            final(self).wf(),
            final(self).paused == old(self).paused,
            final(self).volume_milli == old(self).volume_milli,
            (old(self).paused || old(self).queue.len() == 0) ==> r is None && final(self).queue@
                == old(self).queue@,
            (!old(self).paused && old(self).queue.len() > 0 && old(self).queue[0].position >= old(
                self,
            ).queue[0].total_samples) ==> r is None && final(self).queue@ == old(
                self,
            ).queue@.subrange(1, old(self).queue.len() as int),
            (!old(self).paused && old(self).queue.len() > 0 && old(self).queue[0].position < old(
                self,
            ).queue[0].total_samples) ==> {
                let head = old(self).queue[0];
                &&& r == Some(
                    volume_scaled(
                        emitted_at(head, head.position as int),
                        old(self).volume_milli as int,
                    ) as i32,
                )
                &&& final(self).queue.len() == old(self).queue.len()
                &&& final(self).queue[0].position == head.position + 1
                &&& final(self).queue[0].samples@ == head.samples@
                &&& forall|i: int| 1 <= i < old(self).queue.len() ==> final(self).queue[i] == old(
                    self,
                ).queue[i]
            },
    {
        if self.paused || self.queue.len() == 0 {
            return None;
        }
        let mut head: OneShotSource = self.queue.remove(0);
        match head.next_sample() {
            Some(v) => {
                proof {
                    crate::source::lemma_emitted_bounded(old(self).queue[0]);
                    assert(-32768 <= v <= 32768);
                    assert(-32768 * 1000 <= v as int * self.volume_milli as int <= 32768 * 1000)
                        by (nonlinear_arith)
                        requires
                            -32768 <= v as int <= 32768,
                            0 <= self.volume_milli <= 1000,
                    ;
                    lemma_volume_scale_bounded(v as int, self.volume_milli as int);
                }
                let scaled: i64 = crate::fixed::div_round_zero(
                    (v as i64) * (self.volume_milli as i64),
                    1000,
                );
                self.queue.insert(0, head);
                proof {
                    assert(self.queue@[0] == head);
                    assert forall|i: int| 1 <= i < old(self).queue.len() implies self.queue@[i]
                        == old(self).queue@[i] by {
                        assert(self.queue@[i] == old(self).queue@.subrange(
                            1,
                            old(self).queue.len() as int,
                        )[i - 1]);
                    }
                }
                Some(scaled as i32)
            },
            None => None,
        }
    }
}

/// Volume scaling keeps a full-scale sample within full scale.
proof fn lemma_volume_scale_bounded(v: int, vol: int)
    requires
        -32768 <= v <= 32768,
        0 <= vol <= 1000,
    ensures
        -32768 <= volume_scaled(v, vol) <= 32768,
{
    assert(-32768000 <= v * vol <= 32768000) by (nonlinear_arith)
        requires
            -32768 <= v <= 32768,
            0 <= vol <= 1000,
    ;
    if v * vol >= 0 {
        assert(v * vol / 1000 <= 32768) by (nonlinear_arith)
            requires
                0 <= v * vol <= 32768000,
        ;
    } else {
        assert((-(v * vol)) / 1000 <= 32768) by (nonlinear_arith)
            requires
                0 <= -(v * vol) <= 32768000,
        ;
    }
}

} // verus!
