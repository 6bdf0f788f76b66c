//! Decoder policy: what the external transcoder subprocess is asked to
//! do and when its result counts as a decode. The process itself, and
//! the conversion of its float output into fixed point, run outside
//! the library.

use vstd::prelude::*;

use crate::buffer::{CHANNELS, SAMPLE_RATE};
use crate::errors::AudioError;

verus! {

/// Audio decoder backed by an external transcoder subprocess.
#[derive(Debug, Clone, Copy)]
pub struct AudioDecoder;

impl AudioDecoder {
    /// The arguments the transcoder is started with: read any
    /// container from standard input, emit headerless little-endian
    /// 32-bit float PCM at the fixed internal rate and channel count on
    /// standard output.
    pub fn transcode_args() -> (args: Vec<&'static str>)
        ensures
            args.len() == 14,
            args[3]@ == "-i"@ && args[4]@ == "pipe:0"@,
            args[5]@ == "-f"@ && args[6]@ == "f32le"@,
            args[7]@ == "-acodec"@ && args[8]@ == "pcm_f32le"@,
            args[9]@ == "-ar"@ && args[10]@ == "48000"@,
            args[11]@ == "-ac"@ && args[12]@ == "2"@,
            args[13]@ == "pipe:1"@,
    {
        let mut args: Vec<&'static str> = Vec::new();
        args.push("-hide_banner");
        args.push("-loglevel");
        args.push("error");
        args.push("-i");
        args.push("pipe:0");
        args.push("-f");
        args.push("f32le");
        args.push("-acodec");
        args.push("pcm_f32le");
        args.push("-ar");
        args.push("48000");
        args.push("-ac");
        args.push("2");
        args.push("pipe:1");
        args
    }

    /// The sample rate the transcoder is asked for.
    pub fn output_sample_rate() -> (r: u32)
        ensures
            r == SAMPLE_RATE,
    {
        SAMPLE_RATE
    }

    /// The channel count the transcoder is asked for.
    pub fn output_channels() -> (r: u16)
        ensures
            r == CHANNELS,
    {
        CHANNELS
    }

    /// Judge the transcoder's run: a non-zero exit is a tool failure
    /// with its diagnostics; an empty output decodes to nothing.
    pub fn judge_output(exit_code: i32, output_len: usize, diagnostics: String) -> (r: Result<
        (),
        AudioError,
    >)
        ensures
            exit_code != 0 ==> (r matches Err(AudioError::ToolFailed(c, _)) && c == exit_code),
            exit_code == 0 && output_len == 0 ==> (r matches Err(AudioError::DecodeError(_))),
            exit_code == 0 && output_len > 0 ==> r is Ok,
    {
        if exit_code != 0 {
            Err(AudioError::ToolFailed(exit_code, diagnostics))
        } else if output_len == 0 {
            Err(AudioError::DecodeError("transcoder produced no output".to_owned()))
        } else {
            Ok(())
        }
    }
}

} // verus!
