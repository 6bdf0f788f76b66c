//! Producer pool policy: the messages between the workers, the
//! coordinator and the sync loop, and every scheduling decision the
//! pool makes. The channels, sleeps and HTTP work run outside the
//! library and follow these decisions.

use vstd::prelude::*;

use crate::buffer::LoopBuffer;
use crate::errors::{is_recoverable_spec, AudioError, TapprError};
use crate::settings::{BpmMode, StationInfo};

verus! {

/// Number of parallel fetch workers.
pub const NUM_WORKERS: usize = 5;

/// Producer configuration shared by all workers.
#[derive(Debug, Clone)]
pub struct ProducerConfig {
    /// Station search query, when given.
    pub search: Option<String>,
    /// Region filter, when given.
    pub region: Option<String>,
    /// Stream capture length in seconds.
    pub listen_seconds: u32,
    /// Seconds before changing stations.
    pub station_change_seconds: u32,
    /// Bars per clip.
    pub bars: u8,
    /// Beats per bar.
    pub beats_per_bar: u8,
    /// Tempo mode.
    pub bpm_mode: BpmMode,
}

/// Commands from the input loop to the producer.
#[derive(Debug)]
pub enum ProducerCommand {
    /// Skip to the next station immediately.
    NextStation,
    /// The audio device changed; playback must reopen on this index.
    AudioDeviceChanged(usize),
    /// Shut the producer down.
    Quit,
}

/// Events from the producer to the sync loop.
#[derive(Debug)]
pub enum ProducerEvent {
    /// A worker started processing this station.
    StationSelected(StationInfo),
    /// A finished loop is ready for playback.
    LoopReady(LoopBuffer, StationInfo),
    /// A failure worth displaying.
    Error(String),
    /// The current clip should be skipped.
    SkipCurrent,
    /// The audio device changed; playback must reopen on this index.
    AudioDeviceChanged(usize),
    /// The producer is shutting down.
    Shutdown,
}

/// What the coordinator does with a command: the event it forwards, and
/// whether it shuts down.
pub struct CoordinatorStep {
    /// Event forwarded to the sync loop, if any.
    pub forward: Option<ProducerEvent>,
    /// Whether the coordinator stops and signals the workers.
    pub quit: bool,
}

/// Route one input command: a station skip becomes a skip event, a
/// device change is relayed, and quit stops the pool.
pub fn coordinator_step(cmd: ProducerCommand) -> (r: CoordinatorStep)
    ensures
        match cmd {
            ProducerCommand::NextStation => r.forward matches Some(ProducerEvent::SkipCurrent)
                && !r.quit,
            ProducerCommand::AudioDeviceChanged(idx) => r.forward matches Some(
                ProducerEvent::AudioDeviceChanged(i),
            ) && i == idx && !r.quit,
            ProducerCommand::Quit => r.forward is None && r.quit,
        },
{
    match cmd {
        ProducerCommand::NextStation => CoordinatorStep {
            forward: Some(ProducerEvent::SkipCurrent),
            quit: false,
        },
        ProducerCommand::AudioDeviceChanged(idx) => CoordinatorStep {
            forward: Some(ProducerEvent::AudioDeviceChanged(idx)),
            quit: false,
        },
        ProducerCommand::Quit => CoordinatorStep { forward: None, quit: true },
    }
}

/// Capacity of the clip channel from the workers to the coordinator:
/// three clips in flight per worker.
pub fn clip_channel_capacity() -> (n: usize)
    ensures
        n == 3 * NUM_WORKERS,
{
    NUM_WORKERS * 3
}

/// Start-up stagger for a worker: 200 ms per worker index, so cold
/// caches are not hit by every worker at once.
pub fn worker_start_delay_ms(worker_id: usize) -> (ms: u64)
    requires
        worker_id < 0x1_0000_0000,
    ensures
        ms == 200 * worker_id,
{
    200 * (worker_id as u64)
}

/// Whether a worker's first clip uses the quick-start pipeline: only
/// the first two workers do.
pub fn worker_uses_quick_start(worker_id: usize) -> (r: bool)
    ensures
        r == (worker_id <= 1),
{
    worker_id <= 1
}

/// How one worker attempt ended, as seen by the scheduling policy.
#[derive(Debug, Clone, Copy, PartialEq, Eq, Structural)]
pub enum WorkerOutcome {
    /// A clip was produced.
    Produced,
    /// The clip was rejected as not music.
    Rejected,
    /// A transient failure; another station may work right away.
    Transient,
    /// A persistent failure.
    Persistent,
}

/// Classify a failed attempt: a non-music rejection costs no delay, a
/// recoverable error is transient, anything else is persistent.
pub fn classify_failure(e: &TapprError) -> (o: WorkerOutcome)
    ensures
        e matches TapprError::Audio(AudioError::NotMusic(_)) ==> o == WorkerOutcome::Rejected,
        !(e matches TapprError::Audio(AudioError::NotMusic(_))) && is_recoverable_spec(*e) ==> o
            == WorkerOutcome::Transient,
        !(e matches TapprError::Audio(AudioError::NotMusic(_))) && !is_recoverable_spec(*e) ==> o
            == WorkerOutcome::Persistent,
{
    match e {
        TapprError::Audio(AudioError::NotMusic(_)) => WorkerOutcome::Rejected,
        _ => {
            if e.is_recoverable() {
                WorkerOutcome::Transient
            } else {
                WorkerOutcome::Persistent
            }
        },
    }
}

/// The back-off a worker sleeps after an attempt: none after a clip or
/// a rejection, half a second after a transient failure, two seconds
/// after a persistent one.
pub fn worker_backoff_ms(outcome: WorkerOutcome) -> (ms: u64)
    ensures
        outcome == WorkerOutcome::Produced ==> ms == 0,
        outcome == WorkerOutcome::Rejected ==> ms == 0,
        outcome == WorkerOutcome::Transient ==> ms == 500,
        outcome == WorkerOutcome::Persistent ==> ms == 2000,
{
    match outcome {
        WorkerOutcome::Produced => 0,
        WorkerOutcome::Rejected => 0,
        WorkerOutcome::Transient => 500,
        WorkerOutcome::Persistent => 2000,
    }
}

/// Capture length and bar count of the quick-start pipeline: a six
/// second listen shaped into four bars.
pub fn quick_start_params() -> (r: (u32, u8))
    ensures
        r.0 == 6,
        r.1 == 4,
{
    (6, 4)
}

/// The tempo range quick-start detection uses, milli-BPM.
pub fn quick_start_bpm_range() -> (r: (u32, u32))
    ensures
        r.0 == 70_000,
        r.1 == 170_000,
{
    (70_000, 170_000)
}

/// Whether a classified clip is kept: the full pipeline keeps music and
/// uncertain content, quick start rejects only silence.
pub fn accepts_content(quick: bool, content: crate::classifier::ContentType) -> (r: bool)
    ensures
        quick ==> r == (content != crate::classifier::ContentType::Silence),
        !quick ==> r == (content == crate::classifier::ContentType::Music || content
            == crate::classifier::ContentType::Unknown),
{
    if quick {
        !matches!(content, crate::classifier::ContentType::Silence)
    } else {
        content.is_music()
    }
}

} // verus!
