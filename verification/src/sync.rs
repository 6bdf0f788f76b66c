//! Sync-loop timing: the state machine that keeps the displayed
//! now-playing in phase with what the engine samples out. The engine
//! reports queue length late, so the display is advanced on a clock:
//! whenever the estimated end of the current clip has passed.

use vstd::prelude::*;

verus! {

/// Timing state owned by the sync loop.
#[derive(Debug, Clone, Copy)]
pub struct SyncTimer {
    /// When the clip now at the head of the queue is expected to end,
    /// in milliseconds on the loop's clock.
    pub current_clip_end_ms: Option<u64>,
}

impl SyncTimer {
    /// A timer with nothing scheduled.
    pub fn new() -> (t: Self)
        ensures
            t.current_clip_end_ms is None,
    {
        SyncTimer { current_clip_end_ms: None }
    }

    /// A ready loop arrives: when the engine is idle it plays at once
    /// and its end is scheduled; otherwise it queues and the schedule
    /// stands. Returns whether the loop plays immediately.
    pub fn on_loop_ready(&mut self, engine_finished: bool, now_ms: u64, duration_ms: u64) -> (plays:
        bool)
        requires
            now_ms + duration_ms <= u64::MAX,
        ensures
            plays == engine_finished,
            engine_finished ==> final(self).current_clip_end_ms == Some(
                (now_ms + duration_ms) as u64,
            ),
            !engine_finished ==> final(self).current_clip_end_ms == old(self).current_clip_end_ms,
    {
        if engine_finished {
            self.current_clip_end_ms = Some(now_ms + duration_ms);
            true
        } else {
            false
        }
    }

    /// The current clip is skipped: the next clip (if any) starts now
    /// and its end is scheduled; with an empty queue nothing is
    /// scheduled.
    pub fn on_skip(&mut self, now_ms: u64, next_duration_ms: Option<u64>)
        requires
            next_duration_ms matches Some(d) ==> now_ms + d <= u64::MAX,
        ensures
            match next_duration_ms {
                Some(d) => final(self).current_clip_end_ms == Some((now_ms + d) as u64),
                None => final(self).current_clip_end_ms is None,
            },
    {
        self.current_clip_end_ms = match next_duration_ms {
            Some(d) => Some(now_ms + d),
            None => None,
        };
    }

    /// The audio device changes: playback stops, nothing is scheduled.
    pub fn on_device_change(&mut self)
        ensures
            final(self).current_clip_end_ms is None,
    {
        self.current_clip_end_ms = None;
    }

    /// Whether the display should advance to the next queued entry: the
    /// scheduled end has passed and something is queued.
    pub fn should_advance(&self, now_ms: u64, queue_len: usize) -> (r: bool)
        ensures
            r == (self.current_clip_end_ms matches Some(end) && now_ms >= end && queue_len > 0),
    {
        match self.current_clip_end_ms {
            Some(end) => now_ms >= end && queue_len > 0,
            None => false,
        }
    }

    /// The display advanced to a clip of the given length (or ran out
    /// of entries): schedule its end accordingly.
    pub fn on_advanced(&mut self, now_ms: u64, next_duration_ms: Option<u64>)
        requires
            next_duration_ms matches Some(d) ==> now_ms + d <= u64::MAX,
        ensures
            match next_duration_ms {
                Some(d) => final(self).current_clip_end_ms == Some((now_ms + d) as u64),
                None => final(self).current_clip_end_ms is None,
            },
    {
        self.current_clip_end_ms = match next_duration_ms {
            Some(d) => Some(now_ms + d),
            None => None,
        };
    }
}

/// The frame delay of the render loop, about 60 frames per second.
pub fn frame_sleep_ms() -> (ms: u64)
    ensures
        ms == 16,
{
    16
}

/// The input poll timeout of each tick.
pub fn input_poll_ms() -> (ms: u64)
    ensures
        ms == 50,
{
    50
}

} // verus!
