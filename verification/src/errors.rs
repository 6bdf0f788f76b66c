//! Error taxonomy for the pipeline. Outside failures are carried as
//! plain values (status codes, exit codes, rendered messages).

use vstd::prelude::*;

verus! {

/// Catalogue (radio directory) errors.
#[derive(Debug, Clone)]
pub enum RadioError {
    /// HTTP request failed; the rendered cause.
    Http(String),
    /// Non-success HTTP status.
    HttpStatus(u16),
    /// JSON parsing failed; the rendered cause.
    Json(String),
    /// No stations found.
    NoStationsFound,
    /// Rate limited; retry after the given seconds.
    RateLimited(u32),
    /// Invalid station ID.
    InvalidStation(String),
    /// Stream URL not found for the station.
    NoStreamUrl,
}

/// Audio capture and processing errors.
#[derive(Debug, Clone)]
pub enum AudioError {
    /// Non-success HTTP status while opening the stream.
    StreamHttpError(u16),
    /// Network failure while streaming; the rendered cause.
    StreamError(String),
    /// No audio data received at all.
    EmptyStream,
    /// The external transcoder executable is missing.
    ToolNotFound,
    /// The transcoder exited with a non-zero status; its code and
    /// captured diagnostics.
    ToolFailed(i32, String),
    /// The transcoder produced no output, or the output is unusable.
    DecodeError(String),
    /// An I/O failure around the transcoder; the rendered cause.
    Io(String),
    /// Quantization failed for a reason other than length.
    QuantizationFailed(String),
    /// The captured audio is shorter than the requested loop; the
    /// needed duration in milliseconds.
    AudioTooShort(u64),
    /// The decoded audio has an unusable sample rate.
    InvalidSampleRate(u32),
    /// The clip was classified as something other than music.
    NotMusic(String),
}

/// Playback engine errors.
#[derive(Debug, Clone)]
pub enum PlaybackError {
    /// Audio stream error.
    Stream(String),
    /// Audio device error.
    Device(String),
    /// No audio device available.
    NoDevice,
    /// Playback failed.
    PlaybackFailed(String),
}

/// Terminal UI errors.
#[derive(Debug, Clone)]
pub enum TuiError {
    /// Terminal I/O error.
    Io(String),
    /// Terminal backend error.
    Backend(String),
    /// Terminal initialization failed.
    InitFailed,
}

/// Top-level application error.
#[derive(Debug, Clone)]
pub enum TapprError {
    /// Catalogue error.
    Radio(RadioError),
    /// Audio processing error.
    Audio(AudioError),
    /// Playback error.
    Playback(PlaybackError),
    /// Terminal UI error.
    Tui(TuiError),
    /// Configuration error.
    Config(String),
}

/// The transient failures worth retrying on another station: catalogue
/// HTTP failures and rate limits, stream failures and empty captures.
pub open spec fn is_recoverable_spec(e: TapprError) -> bool {
    match e {
        TapprError::Radio(RadioError::Http(_)) => true,
        TapprError::Radio(RadioError::RateLimited(_)) => true,
        TapprError::Audio(AudioError::StreamError(_)) => true,
        TapprError::Audio(AudioError::EmptyStream) => true,
        _ => false,
    }
}

impl TapprError {
    /// Whether the error is transient and the worker should simply try
    /// another station.
    pub fn is_recoverable(&self) -> (r: bool)
        ensures
            r == is_recoverable_spec(*self),
    {
        match self {
            TapprError::Radio(RadioError::Http(_)) => true,
            TapprError::Radio(RadioError::RateLimited(_)) => true,
            TapprError::Audio(AudioError::StreamError(_)) => true,
            TapprError::Audio(AudioError::EmptyStream) => true,
            _ => false,
        }
    }
}

} // verus!
