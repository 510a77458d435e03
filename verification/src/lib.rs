//! The decision core of an audio playback engine: which device configuration
//! to open, how the stream supervisor reacts to events, how a source is adapted
//! to the output format, and how mixed samples reach the hardware buffer.
//!
//! Nothing here touches a device, a thread or a clock. A driver feeds events in
//! and carries the returned actions out.

pub mod adapter;
pub mod callback;
pub mod engine;
pub mod error;
pub mod format;
pub mod latch;
pub mod negotiator;
pub mod supervisor;

pub use adapter::{plan_adapters, Adapter};
pub use callback::{prepare_scratch, to_unsigned, write_signed, write_unsigned};
pub use engine::AudioEngine;
pub use error::EngineError;
pub use format::{AudioFormat, ConfigRange, SampleFormat, StreamConfig};
pub use latch::{ErrorLatch, LifecycleEvent};
pub use negotiator::{is_less_preferred, rank_candidates};
pub use supervisor::{Action, Backend, Event, Phase, Release, ReleasePolicy, SupervisorState};
