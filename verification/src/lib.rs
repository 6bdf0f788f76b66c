//! Beat-aligned loop harvesting from live radio streams.
//!
//! The library holds the verified core of the pipeline: the fixed-point
//! audio model, content classification, tempo estimation, quantization,
//! the one-shot playback source, the catalogue station logic, and the
//! state machines that drive the producer pool and the sync loop.
//! Audio samples are carried as Q15 fixed-point integers (32768 = 1.0);
//! the unverified shell converts to and from the hardware float format
//! at the edges.

pub mod bpm;
pub mod buffer;
pub mod classifier;
pub mod decode;
pub mod errors;
pub mod fixed;
pub mod playback;
pub mod quantize;
pub mod radio;
pub mod settings;
pub mod source;
pub mod stream;
pub mod stretch;
pub mod sync;
pub mod tasks;
pub mod tui_state;

pub use fixed::SCALE_ONE;
