//! Normalizing sample data loaded from a sound file.
//!
//! The surrounding program reads a sound file and hands its format
//! fields and raw 16-bit samples to the library, which checks the format
//! and converts the samples to fixed point. One step of the raw 16-bit
//! scale is exactly two fixed-point steps, so the conversion is exact.

use vstd::prelude::*;
use crate::SAMPLE_RATE;
use crate::UNIT;
use crate::wave::buf_ok;

verus! {

/// The error for sample data the engine cannot play.
#[derive(Debug, Clone, Copy, PartialEq, Eq, Structural)]
pub enum SampleError {
    /// The data is not single-channel 16-bit at the engine's sample rate.
    UnsupportedFormat,
}

/// Whether sample data matches what the engine expects: one channel,
/// 16-bit samples, at the engine's own sample rate.
pub open spec fn format_ok(channels: u16, bits_per_sample: u16, sample_rate: u32) -> bool {
    channels == 1 && bits_per_sample == 16 && sample_rate == SAMPLE_RATE
}

/// Check the format of loaded sample data and normalize the raw samples
/// to fixed point. Exactly the supported format is accepted; every raw
/// sample maps to exactly twice its value, which scales the full 16-bit
/// range onto the fixed-point amplitude range.
pub fn normalize_samples(
    channels: u16,
    bits_per_sample: u16,
    sample_rate: u32,
    raw: &Vec<i16>,
) -> (r: Result<Vec<i64>, SampleError>)
    ensures
        match r {
            Ok(buf) => format_ok(channels, bits_per_sample, sample_rate)
                && buf@.len() == raw@.len()
                && (forall|i: int| 0 <= i < raw@.len() ==> #[trigger] buf@[i] == 2 * raw@[i])
                && buf_ok(buf@),
            Err(e) => !format_ok(channels, bits_per_sample, sample_rate)
                && e == SampleError::UnsupportedFormat,
        },
{
    if channels != 1 || bits_per_sample != 16 || sample_rate != SAMPLE_RATE {
        return Err(SampleError::UnsupportedFormat);
    }
    let mut buf: Vec<i64> = Vec::new();
    let mut i: usize = 0;
    while i < raw.len()
        invariant
            i <= raw@.len(),
            buf@.len() == i,
            forall|j: int| 0 <= j < i ==> #[trigger] buf@[j] == 2 * raw@[j],
            buf_ok(buf@),
        decreases raw@.len() - i,
    {
        let s: i64 = raw[i] as i64;
        buf.push(2 * s);
        i = i + 1;
    }
    Ok(buf)
}

} // verus!
