use audio_engine::{
    Action, AudioEngine, Backend, ConfigRange, EngineError, ErrorLatch, Event, LifecycleEvent,
    Phase, Release, ReleasePolicy, SampleFormat, StreamConfig, SupervisorState,
};

fn range(min: u32, max: u32, channels: u16, sample_format: SampleFormat) -> ConfigRange {
    ConfigRange { channels, min_sample_rate: min, max_sample_rate: max, sample_format }
}

fn config(sample_rate: u32, channels: u16, sample_format: SampleFormat) -> StreamConfig {
    StreamConfig { channels, sample_rate, sample_format }
}

fn open(sample_rate: u32, channels: u16, sample_format: SampleFormat) -> Action {
    Action::Open { config: config(sample_rate, channels, sample_format), latch: ErrorLatch::new() }
}

fn recreate() -> Event {
    Event::Lifecycle(LifecycleEvent::RecreateRequested)
}

fn shutdown() -> Event {
    Event::Lifecycle(LifecycleEvent::ShutdownRequested)
}

fn three_ranges() -> Vec<ConfigRange> {
    vec![
        range(44100, 44100, 1, SampleFormat::I16),
        range(48000, 48000, 2, SampleFormat::F32),
        range(48000, 48000, 1, SampleFormat::I16),
    ]
}

fn probing(policy: ReleasePolicy) -> Backend {
    let mut backend = Backend::start(policy);
    assert_eq!(backend.handle(recreate()), Action::Probe { release: Release::Nothing });
    backend
}

fn opening(policy: ReleasePolicy) -> Backend {
    let mut backend = probing(policy);
    assert_eq!(backend.handle(Event::Capabilities(three_ranges())), open(48000, 2, SampleFormat::F32));
    backend
}

fn running(policy: ReleasePolicy) -> Backend {
    let mut backend = opening(policy);
    assert_eq!(backend.handle(Event::Opened), Action::Install);
    backend
}

fn stopped(policy: ReleasePolicy) -> Backend {
    let mut backend = Backend::start(policy);
    backend.handle(shutdown());
    backend
}

#[test]
fn supervisor_starts_without_a_stream() {
    let backend = Backend::start(ReleasePolicy::Leak);
    assert_eq!(backend.state(), SupervisorState::NoStream);
    assert_eq!(backend.policy(), ReleasePolicy::Leak);
}

#[test]
fn first_tick_issues_a_recreate_request() {
    let mut backend = Backend::start(ReleasePolicy::Drop);
    assert_eq!(backend.handle(Event::Started), Action::Enqueue(LifecycleEvent::RecreateRequested));
    assert_eq!(backend.state(), SupervisorState::NoStream);
    assert_eq!(backend.handle(recreate()), Action::Probe { release: Release::Nothing });
    assert_eq!(backend.state(), SupervisorState::Recreating(Phase::Probing));
}

#[test]
fn later_ticks_issue_nothing() {
    let mut backend = running(ReleasePolicy::Drop);
    assert_eq!(backend.handle(Event::Started), Action::Wait);
    assert_eq!(backend.state(), SupervisorState::Running);
    let mut backend = probing(ReleasePolicy::Drop);
    assert_eq!(backend.handle(Event::Started), Action::Wait);
    assert_eq!(backend.state(), SupervisorState::Recreating(Phase::Probing));
}

#[test]
fn negotiation_tries_the_most_preferred_candidate_first() {
    let mut backend = probing(ReleasePolicy::Drop);
    assert_eq!(backend.handle(Event::Capabilities(three_ranges())), open(48000, 2, SampleFormat::F32));
    assert_eq!(backend.state(), SupervisorState::Recreating(Phase::Opening));
    assert_eq!(backend.handle(Event::Opened), Action::Install);
    assert_eq!(backend.state(), SupervisorState::Running);
}

#[test]
fn refused_candidate_is_followed_by_the_next() {
    let mut backend = opening(ReleasePolicy::Drop);
    assert_eq!(backend.handle(Event::OpenFailed), open(48000, 1, SampleFormat::I16));
    assert_eq!(backend.handle(Event::OpenFailed), open(44100, 1, SampleFormat::I16));
    assert_eq!(backend.handle(Event::Opened), Action::Install);
    assert_eq!(backend.state(), SupervisorState::Running);
}

#[test]
fn exhausted_negotiation_stops_with_one_failure() {
    let mut backend = opening(ReleasePolicy::Drop);
    let mut failures = 0;
    let mut attempts = 1;
    for _ in 0..10 {
        match backend.handle(Event::OpenFailed) {
            Action::Open { .. } => attempts += 1,
            Action::Stop { failure: Some(failure), release } => {
                assert_eq!(failure, EngineError::NoSupportedConfiguration);
                assert_eq!(release, Release::Nothing);
                failures += 1;
            }
            action => assert_eq!(action, Action::Stop { release: Release::Nothing, failure: None }),
        }
    }
    assert_eq!(attempts, 3);
    assert_eq!(failures, 1);
    assert_eq!(backend.state(), SupervisorState::Stopped);
}

#[test]
fn device_without_configurations_fails_at_once() {
    let mut backend = probing(ReleasePolicy::Drop);
    assert_eq!(
        backend.handle(Event::Capabilities(vec![])),
        Action::Stop { release: Release::Nothing, failure: Some(EngineError::NoSupportedConfiguration) }
    );
    assert_eq!(backend.state(), SupervisorState::Stopped);
}

#[test]
fn missing_device_stops_the_supervisor() {
    let mut backend = probing(ReleasePolicy::Drop);
    assert_eq!(
        backend.handle(Event::NoOutputDevice),
        Action::Stop { release: Release::Nothing, failure: Some(EngineError::NoOutputDevice) }
    );
    assert_eq!(backend.state(), SupervisorState::Stopped);
}

#[test]
fn failed_query_stops_the_supervisor() {
    let mut backend = probing(ReleasePolicy::Leak);
    assert_eq!(
        backend.handle(Event::CapabilityQueryFailed),
        Action::Stop { release: Release::Nothing, failure: Some(EngineError::CapabilityQueryFailure) }
    );
    assert_eq!(backend.state(), SupervisorState::Stopped);
}

#[test]
fn recreate_releases_the_running_stream_first() {
    let mut backend = running(ReleasePolicy::Drop);
    assert_eq!(backend.handle(recreate()), Action::Probe { release: Release::Drop });
    assert_eq!(backend.state(), SupervisorState::Recreating(Phase::Probing));
    let mut backend = running(ReleasePolicy::Leak);
    assert_eq!(backend.handle(recreate()), Action::Probe { release: Release::Leak });
    assert_eq!(backend.state(), SupervisorState::Recreating(Phase::Probing));
}

#[test]
fn recreate_during_negotiation_starts_over() {
    let mut backend = opening(ReleasePolicy::Drop);
    assert_eq!(backend.handle(recreate()), Action::Probe { release: Release::Nothing });
    assert_eq!(backend.state(), SupervisorState::Recreating(Phase::Probing));
    assert_eq!(backend.handle(Event::Capabilities(three_ranges())), open(48000, 2, SampleFormat::F32));
}

#[test]
fn shutdown_stops_every_state() {
    for policy in [ReleasePolicy::Drop, ReleasePolicy::Leak] {
        let held = match policy {
            ReleasePolicy::Drop => Release::Drop,
            ReleasePolicy::Leak => Release::Leak,
        };
        let cases = vec![
            (Backend::start(policy), Release::Nothing),
            (probing(policy), Release::Nothing),
            (opening(policy), Release::Nothing),
            (running(policy), held),
            (stopped(policy), Release::Nothing),
        ];
        for (mut backend, release) in cases {
            assert_eq!(backend.handle(shutdown()), Action::Stop { release, failure: None });
            assert_eq!(backend.state(), SupervisorState::Stopped);
        }
    }
}

#[test]
fn closed_channel_counts_as_shutdown() {
    let mut backend = running(ReleasePolicy::Leak);
    assert_eq!(
        backend.handle(Event::ChannelClosed),
        Action::Stop { release: Release::Leak, failure: None }
    );
    assert_eq!(backend.state(), SupervisorState::Stopped);
    let mut backend = opening(ReleasePolicy::Drop);
    assert_eq!(
        backend.handle(Event::ChannelClosed),
        Action::Stop { release: Release::Nothing, failure: None }
    );
    assert_eq!(backend.state(), SupervisorState::Stopped);
}

#[test]
fn stopped_supervisor_stays_stopped() {
    let events = vec![
        Event::Started,
        recreate(),
        shutdown(),
        Event::ChannelClosed,
        Event::NoOutputDevice,
        Event::CapabilityQueryFailed,
        Event::Capabilities(three_ranges()),
        Event::OpenFailed,
        Event::Opened,
    ];
    let mut backend = stopped(ReleasePolicy::Drop);
    for event in events {
        assert_eq!(backend.handle(event), Action::Stop { release: Release::Nothing, failure: None });
        assert_eq!(backend.state(), SupervisorState::Stopped);
    }
}

#[test]
fn reports_out_of_turn_are_ignored() {
    let mut backend = Backend::start(ReleasePolicy::Drop);
    for event in [
        Event::NoOutputDevice,
        Event::CapabilityQueryFailed,
        Event::Capabilities(three_ranges()),
        Event::OpenFailed,
        Event::Opened,
    ] {
        assert_eq!(backend.handle(event), Action::Wait);
        assert_eq!(backend.state(), SupervisorState::NoStream);
    }
    let mut backend = probing(ReleasePolicy::Drop);
    assert_eq!(backend.handle(Event::OpenFailed), Action::Wait);
    assert_eq!(backend.handle(Event::Opened), Action::Wait);
    assert_eq!(backend.state(), SupervisorState::Recreating(Phase::Probing));
    let mut backend = opening(ReleasePolicy::Drop);
    assert_eq!(backend.handle(Event::NoOutputDevice), Action::Wait);
    assert_eq!(backend.handle(Event::CapabilityQueryFailed), Action::Wait);
    assert_eq!(backend.handle(Event::Capabilities(vec![])), Action::Wait);
    assert_eq!(backend.state(), SupervisorState::Recreating(Phase::Opening));
    assert_eq!(backend.handle(Event::OpenFailed), open(48000, 1, SampleFormat::I16));
    let mut backend = running(ReleasePolicy::Drop);
    assert_eq!(backend.handle(Event::OpenFailed), Action::Wait);
    assert_eq!(backend.handle(Event::Opened), Action::Wait);
    assert_eq!(backend.handle(Event::Capabilities(three_ranges())), Action::Wait);
    assert_eq!(backend.state(), SupervisorState::Running);
}

#[test]
fn two_errors_enqueue_one_recreate_request() {
    let mut latch = ErrorLatch::new();
    assert!(!latch.is_tripped());
    let mut enqueued = Vec::new();
    for _ in 0..2 {
        if let Some(event) = latch.notify() {
            enqueued.push(event);
        }
    }
    assert_eq!(enqueued, vec![LifecycleEvent::RecreateRequested]);
    assert!(latch.is_tripped());
    assert_eq!(latch.notify(), None);
}

#[test]
fn every_attempt_gets_a_fresh_latch() {
    let mut backend = probing(ReleasePolicy::Drop);
    for _ in 0..3 {
        let event = if backend.state() == SupervisorState::Recreating(Phase::Probing) {
            Event::Capabilities(three_ranges())
        } else {
            Event::OpenFailed
        };
        match backend.handle(event) {
            Action::Open { mut latch, .. } => {
                assert!(!latch.is_tripped());
                assert_eq!(latch.notify(), Some(LifecycleEvent::RecreateRequested));
            }
            action => panic!("no attempt: {:?}", action),
        }
    }
}

#[test]
fn engine_starts_in_the_default_format() {
    let engine = AudioEngine::new();
    assert_eq!(engine.sample_rate(), 48000);
    assert_eq!(engine.channels(), 2);
    assert_eq!(engine.state(), SupervisorState::NoStream);
}

#[test]
fn engine_takes_the_format_of_each_attempt() {
    let mut engine = AudioEngine::new();
    assert_eq!(engine.handle(Event::Started), Action::Enqueue(LifecycleEvent::RecreateRequested));
    assert_eq!(engine.handle(recreate()), Action::Probe { release: Release::Nothing });
    assert_eq!((engine.sample_rate(), engine.channels()), (48000, 2));
    let ranges = vec![
        range(8000, 44100, 1, SampleFormat::I16),
        range(8000, 22050, 6, SampleFormat::F32),
    ];
    assert_eq!(engine.handle(Event::Capabilities(ranges)), open(44100, 1, SampleFormat::I16));
    assert_eq!((engine.sample_rate(), engine.channels()), (44100, 1));
    assert_eq!(engine.handle(Event::OpenFailed), open(22050, 6, SampleFormat::F32));
    assert_eq!((engine.sample_rate(), engine.channels()), (22050, 6));
    assert_eq!(engine.handle(Event::Opened), Action::Install);
    assert_eq!((engine.sample_rate(), engine.channels()), (22050, 6));
    assert_eq!(engine.state(), SupervisorState::Running);
}

#[test]
fn engine_keeps_the_last_format_when_negotiation_fails() {
    let mut engine = AudioEngine::with_release_policy(ReleasePolicy::Leak);
    engine.handle(recreate());
    engine.handle(Event::Capabilities(vec![range(8000, 44100, 1, SampleFormat::I16)]));
    assert_eq!(
        engine.handle(Event::OpenFailed),
        Action::Stop { release: Release::Nothing, failure: Some(EngineError::NoSupportedConfiguration) }
    );
    assert_eq!((engine.sample_rate(), engine.channels()), (44100, 1));
    assert_eq!(engine.state(), SupervisorState::Stopped);
    assert_eq!(engine.handle(recreate()), Action::Stop { release: Release::Nothing, failure: None });
}

#[test]
fn engine_adapts_sources_to_the_negotiated_format() {
    let mut engine = AudioEngine::new();
    engine.handle(recreate());
    engine.handle(Event::Capabilities(vec![range(8000, 44100, 1, SampleFormat::I16)]));
    engine.handle(Event::Opened);
    let stereo = audio_engine::AudioFormat { channels: 2, sample_rate: 48000 };
    assert_eq!(
        engine.new_sound(stereo),
        Ok(vec![audio_engine::Adapter::SampleRate(44100), audio_engine::Adapter::Channels(1)])
    );
}

#[test]
fn engine_shutdown_releases_by_policy() {
    let mut engine = AudioEngine::with_release_policy(ReleasePolicy::Leak);
    engine.handle(recreate());
    engine.handle(Event::Capabilities(three_ranges()));
    engine.handle(Event::Opened);
    assert_eq!(engine.handle(shutdown()), Action::Stop { release: Release::Leak, failure: None });
    assert_eq!(engine.state(), SupervisorState::Stopped);
}
