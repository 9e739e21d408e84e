//! Recording limits: how much audio a take may hold and how little is too little.
use vstd::prelude::*;

verus! {

/// The longest recording, in seconds (five minutes).
pub const MAX_SECONDS: u64 = 300;

/// How many mono samples a recording at `sample_rate` keeps at most.
pub fn capture_limit(sample_rate: u32) -> (r: u64)
    ensures
        r == sample_rate * MAX_SECONDS,
{
    sample_rate as u64 * MAX_SECONDS
}

/// Whether a recording holds enough audio to transcribe: at least a tenth of a
/// second at `sample_rate`.
pub fn enough_audio(samples: u64, sample_rate: u32) -> (r: bool)
    ensures
        r == (samples >= sample_rate / 10),
{
    samples >= (sample_rate / 10) as u64
}

/// Whether another sample still fits in a recording that holds `captured` samples.
pub fn room_for_sample(captured: u64, sample_rate: u32) -> (r: bool)
    ensures
        r == (captured < sample_rate * MAX_SECONDS),
{
    captured < capture_limit(sample_rate)
}

/// Whether a recording is over: it reached the time limit or its device failed.
pub fn recording_over(elapsed_secs: u64, device_failed: bool) -> (r: bool)
    ensures
        r == (elapsed_secs >= MAX_SECONDS || device_failed),
{
    elapsed_secs >= MAX_SECONDS || device_failed
}

} // verus!
