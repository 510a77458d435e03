//! What can go wrong in the engine.

use vstd::prelude::*;

verus! {

/// A failure of device negotiation or of source registration.
#[derive(Clone, Copy, Debug, PartialEq, Eq, Structural)]
pub enum EngineError {
    /// The host has no default output device.
    NoOutputDevice,
    /// The device could not say which configurations it supports.
    CapabilityQueryFailure,
    /// The device took none of the configurations that were tried.
    NoSupportedConfiguration,
    /// A source and the output differ in channel count and neither is mono.
    /// `rates_differ` tells whether their sample rates differ as well.
    ChannelMismatch { rates_differ: bool },
}

impl EngineError {
    /// The text that describes the error.
    pub open spec fn text(self) -> Seq<char> {
        match self {
            EngineError::NoOutputDevice => "no output device available"@,
            EngineError::CapabilityQueryFailure => "error while querying formats"@,
            EngineError::NoSupportedConfiguration => "no supported config"@,
            EngineError::ChannelMismatch { rates_differ: true } =>
                "Number of channels do not match the output, and neither are 1"@,
            EngineError::ChannelMismatch { rates_differ: false } =>
                "Number of channels do not match the output, and is not 1"@,
        }
    }

    /// Describes the error in words.
    pub fn message(&self) -> (message: &'static str)
        ensures
            message@ == self.text(),
    {
        match self {
            EngineError::NoOutputDevice => "no output device available",
            EngineError::CapabilityQueryFailure => "error while querying formats",
            EngineError::NoSupportedConfiguration => "no supported config",
            EngineError::ChannelMismatch { rates_differ: true } =>
                "Number of channels do not match the output, and neither are 1",
            EngineError::ChannelMismatch { rates_differ: false } =>
                "Number of channels do not match the output, and is not 1",
        }
    }
}

} // verus!
