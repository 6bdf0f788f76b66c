//! Display state of the terminal UI: what is playing, what comes next,
//! where the loop has been, and how key presses map to actions. The
//! drawing itself happens outside the library.

use vstd::prelude::*;

use crate::buffer::LoopInfo;
use crate::settings::StationInfo;

verus! {

/// Play status tag shown in the header.
#[derive(Debug, Clone)]
pub enum PlayStatus {
    /// Nothing playing yet.
    Idle,
    /// A first station is being loaded.
    Loading,
    /// A loop is playing.
    Playing,
    /// A failure is being displayed.
    Error(String),
}

/// A queued station with the loop that was cut from it.
#[derive(Debug, Clone)]
pub struct QueuedStation {
    /// The station.
    pub station: StationInfo,
    /// The loop's metadata.
    pub loop_info: LoopInfo,
}

/// A queue entry whose duration can be computed safely.
pub open spec fn entry_ok(q: QueuedStation) -> bool {
    &&& q.loop_info.sample_rate >= 1
    &&& q.loop_info.duration_samples < 0x1000_0000_0000
}

/// The history after a station leaves the air: append, then drop the
/// oldest entries beyond ten.
pub open spec fn pushed_history(h: Seq<StationInfo>, s: StationInfo) -> Seq<StationInfo> {
    let h2 = h.push(s);
    if h2.len() > 10 {
        h2.subrange(1, h2.len() as int)
    } else {
        h2
    }
}

/// Keyboard input as the UI sees it.
#[derive(Debug, Clone, Copy, PartialEq, Eq, Structural)]
pub enum Key {
    /// A printable character.
    Char(char),
    /// The escape key.
    Esc,
    /// Anything else.
    Other,
}

/// What a key press asks for.
#[derive(Debug, Clone, Copy, PartialEq, Eq, Structural)]
pub enum InputAction {
    /// Quit the application.
    Quit,
    /// Skip to the next station.
    NextStation,
    /// Toggle between auto and fixed tempo.
    ToggleBpmMode,
    /// More bars per clip.
    CycleBarsUp,
    /// Fewer bars per clip.
    CycleBarsDown,
    /// Switch to the next audio device.
    CycleAudioDevice,
}

/// Map a key press to its action: `q` or escape quits, `n` skips, `b`
/// toggles the tempo mode, `+`/`=` and `-` change the bar count, `d`
/// cycles the audio device.
pub fn map_key(key: Key) -> (r: Option<InputAction>)
    ensures
        match key {
            Key::Esc => r == Some(InputAction::Quit),
            Key::Char(c) => {
                if c == 'q' {
                    r == Some(InputAction::Quit)
                } else if c == 'n' {
                    r == Some(InputAction::NextStation)
                } else if c == 'b' {
                    r == Some(InputAction::ToggleBpmMode)
                } else if c == '+' || c == '=' {
                    r == Some(InputAction::CycleBarsUp)
                } else if c == '-' {
                    r == Some(InputAction::CycleBarsDown)
                } else if c == 'd' {
                    r == Some(InputAction::CycleAudioDevice)
                } else {
                    r is None
                }
            },
            Key::Other => r is None,
        },
{
    match key {
        Key::Esc => Some(InputAction::Quit),
        Key::Char(c) => {
            if c == 'q' {
                Some(InputAction::Quit)
            } else if c == 'n' {
                Some(InputAction::NextStation)
            } else if c == 'b' {
                Some(InputAction::ToggleBpmMode)
            } else if c == '+' || c == '=' {
                Some(InputAction::CycleBarsUp)
            } else if c == '-' {
                Some(InputAction::CycleBarsDown)
            } else if c == 'd' {
                Some(InputAction::CycleAudioDevice)
            } else {
                None
            }
        },
        Key::Other => None,
    }
}

/// Display state of the UI.
#[derive(Debug)]
pub struct TuiState {
    /// The station on air, if any.
    pub now_playing_station: Option<StationInfo>,
    /// The loop on air, if any.
    pub now_playing_loop: Option<LoopInfo>,
    /// The upcoming queue, oldest first.
    pub up_next: Vec<QueuedStation>,
    /// The last stations, oldest first, at most ten.
    pub station_history: Vec<StationInfo>,
    /// The header status tag.
    pub play_status: PlayStatus,
    /// The footer error, if any.
    pub last_error: Option<String>,
}

impl TuiState {
    /// Every queued entry has a computable duration, and the history
    /// holds at most ten stations.
    pub open spec fn wf(&self) -> bool {
        &&& forall|i: int| 0 <= i < self.up_next.len() ==> entry_ok(#[trigger] self.up_next[i])
        &&& self.station_history.len() <= 10
    }

    /// A fresh, idle display.
    pub fn new() -> (t: Self)
        ensures
            t.wf(),
            t.now_playing_station is None,
            t.now_playing_loop is None,
            t.up_next.len() == 0,
            t.station_history.len() == 0,
            t.play_status matches PlayStatus::Idle,
            t.last_error is None,
    {
        TuiState {
            now_playing_station: None,
            now_playing_loop: None,
            up_next: Vec::new(),
            station_history: Vec::new(),
            play_status: PlayStatus::Idle,
            last_error: None,
        }
    }

    /// Number of queued entries.
    pub fn queue_len(&self) -> (n: usize)
        ensures
            n == self.up_next.len(),
    {
        self.up_next.len()
    }

    /// A worker started on a station: show the loading tag only while
    /// nothing is on air and nothing is queued.
    pub fn set_loading(&mut self, station: StationInfo)
        ensures
            final(self).wf() == old(self).wf(),
            final(self).up_next@ == old(self).up_next@,
            final(self).station_history@ == old(self).station_history@,
            final(self).now_playing_station == old(self).now_playing_station,
            final(self).now_playing_loop == old(self).now_playing_loop,
            (old(self).now_playing_station is None && old(self).up_next.len() == 0)
                ==> (final(self).play_status matches PlayStatus::Loading),
            !(old(self).now_playing_station is None && old(self).up_next.len() == 0)
                ==> final(self).play_status == old(self).play_status,
    {
        let _ = station;
        if self.now_playing_station.is_none() && self.up_next.len() == 0 {
            self.play_status = PlayStatus::Loading;
        }
    }

    /// A clip starts playing immediately: the previous station joins
    /// the history, the clip takes the air, and any error clears.
    pub fn set_now_playing(&mut self, station: StationInfo, loop_info: LoopInfo)
        requires
            old(self).wf(),
        ensures
            final(self).wf(),
            final(self).now_playing_station == Some(station),
            final(self).now_playing_loop == Some(loop_info),
            final(self).play_status matches PlayStatus::Playing,
            final(self).last_error is None,
            final(self).up_next@ == old(self).up_next@,
            match old(self).now_playing_station {
                Some(prev) => final(self).station_history@ == pushed_history(
                    old(self).station_history@,
                    prev,
                ),
                None => final(self).station_history@ == old(self).station_history@,
            },
    {
        let prev: Option<StationInfo> = self.now_playing_station.take();
        match prev {
            Some(p) => {
                self.station_history.push(p);
                if self.station_history.len() > 10 {
                    self.station_history.remove(0);
                }
            },
            None => {},
        }
        self.now_playing_station = Some(station);
        self.now_playing_loop = Some(loop_info);
        self.play_status = PlayStatus::Playing;
        self.last_error = None;
    }

    /// A clip is queued for later.
    pub fn add_to_queue(&mut self, station: StationInfo, loop_info: LoopInfo)
        requires
            old(self).wf(),
            loop_info.sample_rate >= 1,
            loop_info.duration_samples < 0x1000_0000_0000,
        ensures
            final(self).wf(),
            final(self).up_next@ == old(self).up_next@.push(
                QueuedStation { station, loop_info },
            ),
            final(self).station_history@ == old(self).station_history@,
            final(self).now_playing_station == old(self).now_playing_station,
            final(self).play_status matches PlayStatus::Playing,
            final(self).last_error is None,
    {
        self.up_next.push(QueuedStation { station, loop_info });
        self.play_status = PlayStatus::Playing;
        self.last_error = None;
    }

    /// The head of the queue takes the air. Returns the new clip's
    /// duration in milliseconds and its tempo in milli-BPM, or nothing
    /// when the queue was empty.
    pub fn advance_queue(&mut self) -> (r: Option<(u64, u32)>)
        requires
            old(self).wf(),
        ensures
            final(self).wf(),
            old(self).up_next.len() == 0 ==> {
                &&& r is None
                &&& final(self).up_next@ == old(self).up_next@
                &&& final(self).station_history@ == old(self).station_history@
                &&& final(self).now_playing_station == old(self).now_playing_station
            },
            old(self).up_next.len() > 0 ==> {
                let next = old(self).up_next[0];
                &&& final(self).up_next@ == old(self).up_next@.subrange(
                    1,
                    old(self).up_next.len() as int,
                )
                &&& final(self).now_playing_station == Some(next.station)
                &&& final(self).now_playing_loop == Some(next.loop_info)
                &&& r == Some(
                    (
                        (next.loop_info.duration_samples * 1000 / (
                        next.loop_info.sample_rate as int)) as u64,
                        next.loop_info.bpm_milli,
                    ),
                )
                &&& match old(self).now_playing_station {
                    Some(prev) => final(self).station_history@ == pushed_history(
                        old(self).station_history@,
                        prev,
                    ),
                    None => final(self).station_history@ == old(self).station_history@,
                }
            },
    {
        if self.up_next.len() == 0 {
            return None;
        }
        let next: QueuedStation = self.up_next.remove(0);
        proof {
            assert(entry_ok(old(self).up_next[0]));
        }
        let prev: Option<StationInfo> = self.now_playing_station.take();
        match prev {
            Some(p) => {
                self.station_history.push(p);
                if self.station_history.len() > 10 {
                    self.station_history.remove(0);
                }
            },
            None => {},
        }
        let duration_ms: u64 = next.loop_info.duration_millis();
        let bpm: u32 = next.loop_info.bpm_milli;
        self.now_playing_station = Some(next.station);
        self.now_playing_loop = Some(next.loop_info);
        Some((duration_ms, bpm))
    }

    /// Show an error in the footer.
    pub fn set_error(&mut self, message: String)
        requires
            old(self).wf(),
        ensures
            final(self).wf(),
            final(self).play_status matches PlayStatus::Error(m) && m@ == message@,
            final(self).last_error matches Some(m) && m@ == message@,
            final(self).up_next@ == old(self).up_next@,
            final(self).station_history@ == old(self).station_history@,
    {
        self.last_error = Some(message.clone());
        self.play_status = PlayStatus::Error(message);
    }
}

} // verus!
