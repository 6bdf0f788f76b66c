//! Stream-capture policy: what counts as a failed capture. The HTTP
//! transfer itself runs outside the library; its status code and the
//! bytes it produced are judged here.

use vstd::prelude::*;

use crate::errors::AudioError;

verus! {

/// Overall timeout of the capture HTTP client, seconds.
pub const CAPTURE_TIMEOUT_SECS: u64 = 60;

/// Judge the response status of a stream: only a 2xx status opens the
/// capture.
pub fn check_stream_status(status: u16) -> (r: Result<(), AudioError>)
    ensures
        200 <= status < 300 <==> r is Ok,
        match r {
            Err(AudioError::StreamHttpError(code)) => code == status,
            Err(_) => false,
            Ok(_) => true,
        },
{
    if 200 <= status && status < 300 {
        Ok(())
    } else {
        Err(AudioError::StreamHttpError(status))
    }
}

/// Judge the captured bytes: a short read is fine (the server may close
/// early), but an empty capture is an error.
pub fn finish_capture(bytes: Vec<u8>) -> (r: Result<Vec<u8>, AudioError>)
    ensures
        bytes.len() > 0 <==> r is Ok,
        match r {
            Ok(b) => b@ == bytes@,
            Err(e) => e matches AudioError::EmptyStream,
        },
{
    if bytes.len() == 0 {
        Err(AudioError::EmptyStream)
    } else {
        Ok(bytes)
    }
}

/// Capture buffer estimate: roughly 256 kbit/s of stream for the
/// requested seconds.
pub fn estimated_capture_size(duration_secs: u32) -> (n: usize)
    requires
        duration_secs <= 3600,
    ensures
        n == duration_secs * 32000,
{
    (duration_secs as usize) * 32000
}

} // verus!
