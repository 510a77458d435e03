//! The engine: the output format that is in force, and the supervisor that
//! changes it.

use crate::adapter::{adaptation, adapted, plan_adapters, plan_view, remixable, Adapter};
use crate::error::EngineError;
use crate::format::{AudioFormat, ConfigRange, DEFAULT_CHANNELS, PREFERRED_RATE};
use crate::negotiator::ranked;
use crate::supervisor::{
    Action, Backend, Event, EventView, Phase, ReleasePolicy, Supervisor, SupervisorState,
};
use vstd::prelude::*;

verus! {

/// The engine as contracts see it.
pub struct EngineView {
    /// The one output format that is in force.
    pub format: AudioFormat,
    pub supervisor: Supervisor,
}

impl EngineView {
    /// An engine that was just made.
    pub open spec fn initial(policy: ReleasePolicy) -> EngineView {
        EngineView { format: AudioFormat::initial(), supervisor: Supervisor::initial(policy) }
    }

    /// The format that is in force after the supervisor answered with
    /// `action`: the format of the configuration that is tried, where one is
    /// tried, and the format as it was in every other case.
    pub open spec fn format_after(self, action: Action) -> AudioFormat {
        match action {
            Action::Open { config, .. } => config.format(),
            _ => self.format,
        }
    }

    /// The engine after `event`, and the action that answers it.
    pub open spec fn step(self, event: EventView) -> (EngineView, Action) {
        let (supervisor, action) = self.supervisor.step(event);
        (EngineView { format: self.format_after(action), supervisor }, action)
    }

    /// The engine after all of `events`, one after the other.
    pub open spec fn run(self, events: Seq<EventView>) -> EngineView
        decreases events.len(),
    {
        if events.len() == 0 {
            self
        } else {
            self.step(events[0]).0.run(events.drop_first())
        }
    }

    /// The supervisor of an engine goes its way whatever the format is.
    pub proof fn lemma_supervisor_of_run(self, events: Seq<EventView>)
        ensures
            self.run(events).supervisor == self.supervisor.run(events),
        decreases events.len(),
    {
        if events.len() > 0 {
            self.step(events[0]).0.lemma_supervisor_of_run(events.drop_first());
        }
    }

    /// Where the device takes the first configuration that is tried, the
    /// engine runs in the format of the most preferred candidate.
    pub proof fn lemma_first_choice(self, ranges: Seq<ConfigRange>)
        requires
            self.supervisor.state == SupervisorState::Recreating(Phase::Probing),
            ranges.len() > 0,
        ensures
            ({
                let after = self.run(seq![EventView::Capabilities(ranges), EventView::Opened]);
                &&& after.supervisor.state == SupervisorState::Running
                &&& after.format == ranked(ranges).last().format()
            }),
    {
        let events = seq![EventView::Capabilities(ranges), EventView::Opened];
        crate::negotiator::lemma_ranked(ranges);
        let first = self.step(events[0]).0;
        assert(events.drop_first() =~= seq![EventView::Opened]);
        assert(self.run(events) == first.run(events.drop_first()));
        let second = first.step(EventView::Opened).0;
        assert(events.drop_first().drop_first() =~= Seq::empty());
        assert(first.run(events.drop_first()) == second.run(Seq::empty()));
        assert(second.run(Seq::empty()) == second);
    }

    /// Where the device refuses every configuration that it declared, the
    /// engine ends stopped, in the format of the candidate that was tried
    /// last, the least preferred one.
    pub proof fn lemma_refused_formats(self, ranges: Seq<ConfigRange>)
        requires
            self.supervisor.state == SupervisorState::Recreating(Phase::Probing),
            ranges.len() > 0,
        ensures
            ({
                let after = self.run(
                    seq![EventView::Capabilities(ranges)] + Supervisor::refusals(ranges.len()),
                );
                &&& after.supervisor.state == SupervisorState::Stopped
                &&& after.format == ranked(ranges)[0].format()
            }),
    {
        let events = seq![EventView::Capabilities(ranges)] + Supervisor::refusals(ranges.len());
        crate::negotiator::lemma_ranked(ranges);
        self.lemma_supervisor_of_run(events);
        self.supervisor.lemma_refused_negotiation(ranges);
        let first = self.step(events[0]).0;
        assert(events[0] == EventView::Capabilities(ranges));
        assert(events.drop_first() =~= Supervisor::refusals(ranges.len()));
        assert(self.run(events) == first.run(events.drop_first()));
        first.lemma_refused_queue();
    }

    /// An engine that is opening a stream, and whose device refuses every
    /// candidate that is left, ends in the format of the first of the queue,
    /// or in the format it has where the queue is empty.
    pub proof fn lemma_refused_queue(self)
        requires
            self.supervisor.state == SupervisorState::Recreating(Phase::Opening),
        ensures
            self.run(Supervisor::refusals(self.supervisor.queue.len() + 1)).format == if
                self.supervisor.queue.len() == 0 {
                self.format
            } else {
                self.supervisor.queue[0].format()
            },
        decreases self.supervisor.queue.len(),
    {
        let queue = self.supervisor.queue;
        let events = Supervisor::refusals(queue.len() + 1);
        let rest = events.drop_first();
        let next = self.step(events[0]).0;
        assert(events[0] == EventView::OpenFailed);
        assert(self.run(events) == next.run(rest));
        if queue.len() == 0 {
            assert(rest =~= Seq::empty());
            assert(next.run(rest) == next);
        } else {
            assert(rest =~= Supervisor::refusals(next.supervisor.queue.len() + 1));
            next.lemma_refused_queue();
            if queue.len() > 1 {
                assert(next.supervisor.queue[0] == queue[0]);
            }
        }
    }
}

/// The engine: the output format that is in force, and the supervisor that
/// changes it.
#[derive(Debug)]
pub struct AudioEngine {
    format: AudioFormat,
    backend: Backend,
}

impl View for AudioEngine {
    type V = EngineView;

    closed spec fn view(&self) -> EngineView {
        EngineView { format: self.format, supervisor: self.backend@ }
    }
}

impl AudioEngine {
    /// An engine in the default format, two channels at the preferred rate,
    /// whose supervisor has not begun and drops the streams it gives up.
    pub fn new() -> (engine: AudioEngine)
        ensures
            engine@ == EngineView::initial(ReleasePolicy::Drop),
            engine@.format == (AudioFormat { channels: 2, sample_rate: 48000 }),
            engine@.supervisor.state == SupervisorState::NoStream,
    {
        AudioEngine::with_release_policy(ReleasePolicy::Drop)
    }

    /// An engine as [`AudioEngine::new`] makes it, whose supervisor gives up
    /// streams as `policy` says.
    pub fn with_release_policy(policy: ReleasePolicy) -> (engine: AudioEngine)
        ensures
            engine@ == EngineView::initial(policy),
    {
        AudioEngine {
            format: AudioFormat { channels: DEFAULT_CHANNELS, sample_rate: PREFERRED_RATE },
            backend: Backend::start(policy),
        }
    }

    /// The sample rate of the output format that is in force.
    pub fn sample_rate(&self) -> (sample_rate: u32)
        ensures
            sample_rate == self@.format.sample_rate,
    {
        self.format.sample_rate
    }

    /// The channel count of the output format that is in force.
    pub fn channels(&self) -> (channels: u16)
        ensures
            channels == self@.format.channels,
    {
        self.format.channels
    }

    /// The state of the engine's supervisor.
    pub fn state(&self) -> (state: SupervisorState)
        ensures
            state == self@.supervisor.state,
    {
        self.backend.state()
    }

    /// Decides how a source of format `source` is fitted to the output format
    /// that is in force: the adapters to wrap around it, innermost first, or
    /// the reason why it cannot be mixed.
    pub fn new_sound(&self, source: AudioFormat) -> (plan: Result<Vec<Adapter>, EngineError>)
        ensures
            plan_view(plan) == adaptation(source, self@.format),
            plan is Ok <==> source.channels == self@.format.channels || remixable(
                source,
                self@.format,
            ),
            plan matches Ok(chain) ==> adapted(source, chain@) == self@.format,
            source == self@.format ==> (plan matches Ok(chain) && chain@.len() == 0),
    {
        plan_adapters(source, self.format)
    }

    /// Tells the supervisor of `event` and says what its driver has to do
    /// next. The output format changes where a configuration is tried, to the
    /// format of that configuration, and nowhere else.
    pub fn handle(&mut self, event: Event) -> (action: Action)
        ensures
            final(self)@ == old(self)@.step(event@).0,
            action == old(self)@.step(event@).1,
            !(action is Open) ==> final(self)@.format == old(self)@.format,
            event@.ends() ==> final(self)@.supervisor.state == SupervisorState::Stopped
                && action is Stop,
    {
        let action = self.backend.handle(event);
        if let Action::Open { config, .. } = &action {
            self.format = config.audio_format();
        }
        action
    }
}

} // verus!
