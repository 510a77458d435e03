//! The shapes that audio takes on its way to the hardware.

use vstd::prelude::*;

verus! {

/// The sample rate that the engine asks a device for first, in hertz.
pub const PREFERRED_RATE: u32 = 48000;

/// The sample rate that the engine asks for where the preferred one is not on offer.
pub const FALLBACK_RATE: u32 = 44100;

/// The channel count of the format that an engine starts with.
pub const DEFAULT_CHANNELS: u16 = 2;

/// How a device represents one sample.
#[derive(Clone, Copy, Debug, PartialEq, Eq, Structural)]
pub enum SampleFormat {
    /// Signed 16-bit integers; silence is 0.
    I16,
    /// Unsigned 16-bit integers; silence is 32768.
    U16,
    /// 32-bit floats between -1.0 and 1.0.
    F32,
}

/// Channel count and sample rate of a stream of interleaved samples: what a
/// source produces, or what the mixer is asked to deliver.
#[derive(Clone, Copy, Debug, PartialEq, Eq, Structural)]
pub struct AudioFormat {
    pub channels: u16,
    pub sample_rate: u32,
}

/// One configuration that a hardware stream can be opened with.
#[derive(Clone, Copy, Debug, PartialEq, Eq, Structural)]
pub struct StreamConfig {
    pub channels: u16,
    pub sample_rate: u32,
    pub sample_format: SampleFormat,
}

/// A family of configurations that a device declares: one channel count and
/// sample representation, at every rate from `min_sample_rate` to
/// `max_sample_rate`.
#[derive(Clone, Copy, Debug, PartialEq, Eq, Structural)]
pub struct ConfigRange {
    pub channels: u16,
    pub min_sample_rate: u32,
    pub max_sample_rate: u32,
    pub sample_format: SampleFormat,
}

impl AudioFormat {
    /// The format that an engine mixes in until a device has been negotiated.
    pub open spec fn initial() -> AudioFormat {
        AudioFormat { channels: DEFAULT_CHANNELS, sample_rate: PREFERRED_RATE }
    }
}

impl StreamConfig {
    /// The format that the mixer has to deliver for a stream of this
    /// configuration.
    pub open spec fn format(self) -> AudioFormat {
        AudioFormat { channels: self.channels, sample_rate: self.sample_rate }
    }

    /// Computes [`StreamConfig::format`].
    pub fn audio_format(&self) -> (format: AudioFormat)
        ensures
            format == self.format(),
    {
        AudioFormat { channels: self.channels, sample_rate: self.sample_rate }
    }
}

} // verus!
