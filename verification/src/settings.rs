//! Shared application state: station metadata, tempo mode, the
//! user-adjustable settings, and the displayed playback state.

use vstd::prelude::*;

use crate::playback::AudioDevice;

verus! {

/// Station metadata. Coordinates are carried in microdegrees.
#[derive(Debug, Clone)]
pub struct StationInfo {
    /// Catalogue identifier.
    pub id: String,
    /// Station name.
    pub name: String,
    /// Country name.
    pub country: String,
    /// City or place name.
    pub place_name: String,
    /// Latitude in microdegrees.
    pub latitude_micro: i64,
    /// Longitude in microdegrees.
    pub longitude_micro: i64,
    /// Resolved stream URL, when known.
    pub stream_url: Option<String>,
    /// Station homepage, when known.
    pub website: Option<String>,
}

impl Default for StationInfo {
    fn default() -> (s: Self)
        ensures
            s.latitude_micro == 0,
            s.longitude_micro == 0,
            s.stream_url is None,
            s.website is None,
    {
        StationInfo {
            id: String::new(),
            name: "Unknown Station".to_owned(),
            country: String::new(),
            place_name: String::new(),
            latitude_micro: 0,
            longitude_micro: 0,
            stream_url: None,
            website: None,
        }
    }
}

/// Tempo selection: detect within a range, or stretch to a fixed value.
/// Tempi are thousandths of a BPM.
#[derive(Debug, Clone, Copy, PartialEq, Eq, Structural)]
pub enum BpmMode {
    /// Auto-detect within `[min, max]` milli-BPM.
    Auto { min: u32, max: u32 },
    /// Stretch to this fixed milli-BPM.
    Fixed(u32),
}

impl BpmMode {
    pub fn is_auto(&self) -> (r: bool)
        ensures
            r == (self matches BpmMode::Auto { .. }),
    {
        matches!(self, BpmMode::Auto { .. })
    }
}

/// User-configurable settings, mutated only by the input loop.
#[derive(Debug, Clone)]
pub struct Settings {
    /// Tempo mode.
    pub bpm_mode: BpmMode,
    /// Bars per clip.
    pub bars: u8,
    /// Beats per bar.
    pub beats_per_bar: u8,
    /// Stream capture length in seconds.
    pub listen_seconds: u32,
    /// Requested clip length in seconds.
    pub clip_seconds: u32,
    /// Seconds before changing stations.
    pub station_change_seconds: u32,
    /// Minimum RMS threshold, thousandths.
    pub min_rms_milli: u32,
    /// Maximum tolerated silence, milliseconds.
    pub max_silence_millis: u32,
    /// Selected audio output device index.
    pub audio_device_index: usize,
    /// Cached list of available audio devices.
    pub audio_devices: Vec<AudioDevice>,
}

/// The bar count that follows `b` when cycling up: 1, 2, 4, 8, 16 and
/// back to 1.
pub open spec fn bars_up(b: u8) -> u8 {
    if b == 1 {
        2u8
    } else if b == 2 {
        4u8
    } else if b == 4 {
        8u8
    } else if b == 8 {
        16u8
    } else {
        1u8
    }
}

/// The bar count that follows `b` when cycling down: 16, 8, 4, 2, 1 and
/// back to 16.
pub open spec fn bars_down(b: u8) -> u8 {
    if b == 16 {
        8u8
    } else if b == 8 {
        4u8
    } else if b == 4 {
        2u8
    } else if b == 2 {
        1u8
    } else {
        16u8
    }
}

impl Settings {
    /// Cycle bars through 1, 2, 4, 8, 16 and back.
    pub fn cycle_bars_up(&mut self)
        ensures
            final(self).bars == bars_up(old(self).bars),
            *final(self) == (Settings { bars: final(self).bars, ..*old(self) }),
    {
        self.bars = match self.bars {
            1 => 2,
            2 => 4,
            4 => 8,
            8 => 16,
            _ => 1,
        };
    }

    /// Cycle bars through 16, 8, 4, 2, 1 and back.
    pub fn cycle_bars_down(&mut self)
        ensures
            final(self).bars == bars_down(old(self).bars),
            *final(self) == (Settings { bars: final(self).bars, ..*old(self) }),
    {
        self.bars = match self.bars {
            16 => 8,
            8 => 4,
            4 => 2,
            2 => 1,
            _ => 16,
        };
    }

    /// Toggle between auto detection (70–170 BPM) and a fixed 120 BPM.
    pub fn toggle_bpm_mode(&mut self)
        ensures
            old(self).bpm_mode matches BpmMode::Auto { .. } ==> final(self).bpm_mode == (
            BpmMode::Fixed(120_000)),
            old(self).bpm_mode matches BpmMode::Fixed(_) ==> final(self).bpm_mode == (
            BpmMode::Auto { min: 70_000, max: 170_000 }),
            *final(self) == (Settings { bpm_mode: final(self).bpm_mode, ..*old(self) }),
    {
        self.bpm_mode = match self.bpm_mode {
            BpmMode::Auto { .. } => BpmMode::Fixed(120_000),
            BpmMode::Fixed(_) => BpmMode::Auto { min: 70_000, max: 170_000 },
        };
    }

    /// Step to the next audio device, given a freshly enumerated device
    /// list. Returns whether the selection changed.
    pub fn next_audio_device(&mut self, devices: Vec<AudioDevice>) -> (changed: bool)
        ensures
            final(self).audio_devices@ == devices@,
            devices.len() == 0 ==> !changed && final(self).audio_device_index == old(
                self,
            ).audio_device_index,
            devices.len() > 0 ==> {
                let base: int = if old(self).audio_device_index < devices.len() {
                    old(self).audio_device_index as int
                } else {
                    0int
                };
                &&& final(self).audio_device_index == (base + 1) % (devices.len() as int)
                &&& changed == (final(self).audio_device_index != base)
            },
            *final(self) == (Settings {
                audio_device_index: final(self).audio_device_index,
                audio_devices: final(self).audio_devices,
                ..*old(self)
            }),
    {
        self.audio_devices = devices;
        if self.audio_devices.len() == 0 {
            return false;
        }
        if self.audio_device_index >= self.audio_devices.len() {
            self.audio_device_index = 0;
        }
        let base: usize = self.audio_device_index;
        let new_index: usize = (base + 1) % self.audio_devices.len();
        if new_index != base {
            self.audio_device_index = new_index;
            true
        } else {
            false
        }
    }

    /// The display name of the selected device, or a fallback when the
    /// index is stale.
    pub fn current_audio_device_name(&self) -> (name: String)
        ensures
            self.audio_device_index < self.audio_devices.len() ==> name@
                == self.audio_devices[self.audio_device_index as int].name@,
    {
        if self.audio_device_index < self.audio_devices.len() {
            let dev: &AudioDevice = &self.audio_devices[self.audio_device_index];
            dev.name.clone()
        } else {
            crate::playback::default_device_name()
        }
    }
}

/// Current playback state as shown to the user.
#[derive(Debug, Clone)]
pub enum PlaybackState {
    /// Nothing playing yet.
    Idle,
    /// Loading a new station.
    Loading {
        /// The station being loaded.
        station: StationInfo,
    },
    /// Actively playing a loop.
    Playing {
        /// The station on air.
        station: StationInfo,
        /// The loop being played.
        loop_info: crate::buffer::LoopInfo,
    },
    /// A failure is being displayed; the producer will retry.
    Error {
        /// The message shown in the footer.
        message: String,
    },
}

impl Default for PlaybackState {
    fn default() -> (s: Self)
        ensures
            s matches PlaybackState::Idle,
    {
        PlaybackState::Idle
    }
}

impl PlaybackState {
    /// The station being loaded or played, if any.
    pub fn station(&self) -> (r: Option<&StationInfo>)
        ensures
            match *self {
                PlaybackState::Loading { .. } => r is Some,
                PlaybackState::Playing { .. } => r is Some,
                _ => r is None,
            },
    {
        match self {
            PlaybackState::Loading { station } => Some(station),
            PlaybackState::Playing { station, .. } => Some(station),
            _ => None,
        }
    }

    /// Whether a loop is actively playing.
    pub fn is_playing(&self) -> (r: bool)
        ensures
            r == (self matches PlaybackState::Playing { .. }),
    {
        matches!(self, PlaybackState::Playing { .. })
    }

    /// Status tag for display.
    pub fn status_text(&self) -> (s: &'static str)
        ensures
            self matches PlaybackState::Idle ==> s@ == "IDLE"@,
            self matches PlaybackState::Loading { .. } ==> s@ == "LOADING"@,
            self matches PlaybackState::Playing { .. } ==> s@ == "PLAYING"@,
            self matches PlaybackState::Error { .. } ==> s@ == "ERROR"@,
    {
        match self {
            PlaybackState::Idle => "IDLE",
            PlaybackState::Loading { .. } => "LOADING",
            PlaybackState::Playing { .. } => "PLAYING",
            PlaybackState::Error { .. } => "ERROR",
        }
    }
}

/// Index of the first `/` in the sequence, or its length.
pub open spec fn first_slash_at(s: Seq<char>) -> int
    decreases s.len(),
{
    if s.len() == 0 {
        0
    } else if s[0] == '/' {
        0
    } else {
        1 + first_slash_at(s.skip(1))
    }
}

/// Is the character a decimal digit.
pub open spec fn is_digit(c: char) -> bool {
    '0' <= c <= '9'
}

/// The value of a digit string.
pub open spec fn digits_val(s: Seq<char>) -> int
    decreases s.len(),
{
    if s.len() == 0 {
        0
    } else {
        digits_val(s.drop_last()) * 10 + (s.last() as int - '0' as int)
    }
}

/// The beats per bar a meter string names: the digits before the first
/// `/` when they form a number up to 255, else 4.
pub open spec fn meter_beats(s: Seq<char>) -> int {
    let p = s.subrange(0, first_slash_at(s));
    if p.len() > 0 && (forall|i: int| 0 <= i < p.len() ==> is_digit(#[trigger] p[i]))
        && digits_val(p) <= 255 {
        digits_val(p)
    } else {
        4
    }
}

/// The first `/` lies within the sequence.
proof fn lemma_first_slash_range(s: Seq<char>)
    ensures
        0 <= first_slash_at(s) <= s.len(),
        first_slash_at(s) < s.len() ==> s[first_slash_at(s)] == '/',
        forall|j: int| 0 <= j < first_slash_at(s) ==> s[j] != '/',
    decreases s.len(),
{
    if s.len() > 0 && s[0] != '/' {
        lemma_first_slash_range(s.skip(1));
        assert forall|j: int| 0 <= j < first_slash_at(s) implies s[j] != '/' by {
            if j > 0 {
                assert(s.skip(1)[j - 1] == s[j]);
            }
        }
    }
}

/// Appending one digit multiplies the value by ten.
proof fn lemma_digits_val_step(p: Seq<char>, k: int)
    requires
        0 <= k < p.len(),
    ensures
        digits_val(p.subrange(0, k + 1)) == digits_val(p.subrange(0, k)) * 10 + (p[k] as int
            - '0' as int),
{
    assert(p.subrange(0, k + 1).drop_last() =~= p.subrange(0, k));
    assert(p.subrange(0, k + 1).last() == p[k]);
}

/// A digit string's value only grows as digits are appended.
proof fn lemma_digits_val_grows(p: Seq<char>, k: int)
    requires
        0 <= k <= p.len(),
        forall|i: int| 0 <= i < p.len() ==> is_digit(#[trigger] p[i]),
    ensures
        digits_val(p.subrange(0, k)) <= digits_val(p),
    decreases p.len() - k,
{
    if k == p.len() {
        assert(p.subrange(0, k) =~= p);
    } else {
        lemma_digits_val_step(p, k);
        assert(digits_val(p.subrange(0, k)) >= 0) by {
            lemma_digits_val_nonneg(p.subrange(0, k));
        }
        lemma_digits_val_grows(p, k + 1);
    }
}

/// A digit string's value is never negative.
proof fn lemma_digits_val_nonneg(p: Seq<char>)
    requires
        forall|i: int| 0 <= i < p.len() ==> is_digit(#[trigger] p[i]),
    ensures
        digits_val(p) >= 0,
    decreases p.len(),
{
    if p.len() > 0 {
        assert(forall|i: int|
            0 <= i < p.drop_last().len() ==> is_digit(#[trigger] p.drop_last()[i]));
        lemma_digits_val_nonneg(p.drop_last());
    }
}

/// Parse a meter string such as `4/4` into its beats per bar; anything
/// unreadable falls back to four.
pub fn parse_meter(meter: &str) -> (beats: u8)
    requires
        meter@.len() < 0x1_0000_0000,
    ensures
        beats as int == meter_beats(meter@),
{
    let n: usize = meter.unicode_len();
    let ghost p = meter@.subrange(0, first_slash_at(meter@));
    proof {
        lemma_first_slash_range(meter@);
    }
    // Scan the digits before the first slash, saturating above 255.
    let mut i: usize = 0;
    let mut val: u32 = 0;
    let mut all_digits: bool = true;
    while i < n && !is_slash(meter, i)
        invariant
            n == meter@.len(),
            n < 0x1_0000_0000,
            p == meter@.subrange(0, first_slash_at(meter@)),
            0 <= first_slash_at(meter@) <= n,
            first_slash_at(meter@) < n ==> meter@[first_slash_at(meter@)] == '/',
            forall|j: int| 0 <= j < first_slash_at(meter@) ==> meter@[j] != '/',
            i <= first_slash_at(meter@),
            all_digits ==> forall|j: int| 0 <= j < i ==> is_digit(#[trigger] meter@[j]),
            !all_digits ==> exists|j: int| 0 <= j < i && !is_digit(#[trigger] meter@[j]),
            all_digits ==> val as int == (if digits_val(p.subrange(0, i as int)) > 255 {
                256int
            } else {
                digits_val(p.subrange(0, i as int))
            }),
        decreases n - i,
    {
        let c: char = meter.get_char(i);
        proof {
            assert(p[i as int] == meter@[i as int]);
        }
        if '0' <= c && c <= '9' {
            if all_digits {
                let d: u32 = (c as u32) - 48;
                proof {
                    lemma_digits_val_step(p, i as int);
                }
                if val > 255 {
                    // stays saturated
                    proof {
                        assert(digits_val(p.subrange(0, i as int)) > 255);
                        assert(digits_val(p.subrange(0, i as int + 1)) > 255) by {
                            lemma_digits_val_nonneg_prefix(p, i as int);
                        }
                    }
                    val = 256;
                } else {
                    let next: u32 = val * 10 + d;
                    if next > 255 {
                        val = 256;
                    } else {
                        val = next;
                    }
                }
            }
        } else {
            all_digits = false;
        }
        i = i + 1;
    }
    proof {
        assert(i == first_slash_at(meter@));
        assert(p.subrange(0, i as int) =~= p);
        if all_digits {
            assert forall|j: int| 0 <= j < p.len() implies is_digit(#[trigger] p[j]) by {
                assert(p[j] == meter@[j]);
            }
        } else {
            let j = choose|j: int| 0 <= j < i && !is_digit(#[trigger] meter@[j]);
            assert(p[j] == meter@[j]);
            assert(!is_digit(p[j]));
        }
    }
    if i > 0 && all_digits && val <= 255 {
        val as u8
    } else {
        proof {
            if i > 0 && all_digits {
                assert(digits_val(p) > 255);
            }
        }
        4
    }
}

/// Whether character `i` of the string is a `/`.
fn is_slash(s: &str, i: usize) -> (r: bool)
    requires
        i < s@.len(),
    ensures
        r == (s@[i as int] == '/'),
{
    s.get_char(i) == '/'
}

/// A digit prefix one longer keeps a value above 255 above 255.
proof fn lemma_digits_val_nonneg_prefix(p: Seq<char>, k: int)
    requires
        0 <= k < p.len(),
        is_digit(p[k]),
        digits_val(p.subrange(0, k)) > 255,
    ensures
        digits_val(p.subrange(0, k + 1)) > 255,
{
    lemma_digits_val_step(p, k);
}

} // verus!
