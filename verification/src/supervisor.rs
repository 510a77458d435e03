//! The stream supervisor: the state machine that owns the hardware stream.
//!
//! The supervisor never touches a device itself. It is told what happened, as
//! an [`Event`], and answers with what its driver has to do next, as an
//! [`Action`]. The driver owns the channel, the device and the stream handle.

use crate::error::EngineError;
use crate::format::{ConfigRange, StreamConfig};
use crate::latch::{ErrorLatch, LifecycleEvent};
use crate::negotiator::{rank_candidates, ranked};
use vstd::prelude::*;

verus! {

/// How a stream handle is given up on this platform.
#[derive(Clone, Copy, Debug, PartialEq, Eq, Structural)]
pub enum ReleasePolicy {
    /// The handle is dropped at once.
    Drop,
    /// The handle is leaked on purpose: dropping it from the supervisor's own
    /// context is not safe on this platform.
    Leak,
}

/// What the driver does with the stream handle it holds.
#[derive(Clone, Copy, Debug, PartialEq, Eq, Structural)]
pub enum Release {
    /// No handle is held.
    Nothing,
    /// Drop the handle.
    Drop,
    /// Leak the handle.
    Leak,
}

/// What the supervisor is waiting for while it recreates the stream.
#[derive(Clone, Copy, Debug, PartialEq, Eq, Structural)]
pub enum Phase {
    /// The device is being asked which configurations it supports.
    Probing,
    /// A stream is being opened for one candidate.
    Opening,
}

/// The states of the supervisor.
#[derive(Clone, Copy, Debug, PartialEq, Eq, Structural)]
pub enum SupervisorState {
    /// No stream was ever opened.
    NoStream,
    /// The old stream is gone and a new one is being negotiated.
    Recreating(Phase),
    /// A stream is open and playing.
    Running,
    /// The supervisor has ended. Nothing leads out of this state.
    Stopped,
}

/// What the driver tells the supervisor.
#[derive(Debug, PartialEq, Eq)]
pub enum Event {
    /// The supervisor's context has begun to run.
    Started,
    /// An event was taken from the channel.
    Lifecycle(LifecycleEvent),
    /// The channel is closed: nobody can send to the supervisor any more.
    ChannelClosed,
    /// The host has no default output device.
    NoOutputDevice,
    /// The device did not answer the query for its configurations.
    CapabilityQueryFailed,
    /// The device declared these ranges of configurations.
    Capabilities(Vec<ConfigRange>),
    /// The device refused the configuration that was tried.
    OpenFailed,
    /// A stream was opened with the configuration that was tried.
    Opened,
}

/// An [`Event`] as contracts see it.
pub enum EventView {
    Started,
    Lifecycle(LifecycleEvent),
    ChannelClosed,
    NoOutputDevice,
    CapabilityQueryFailed,
    Capabilities(Seq<ConfigRange>),
    OpenFailed,
    Opened,
}

impl View for Event {
    type V = EventView;

    open spec fn view(&self) -> EventView {
        match *self {
            Event::Started => EventView::Started,
            Event::Lifecycle(event) => EventView::Lifecycle(event),
            Event::ChannelClosed => EventView::ChannelClosed,
            Event::NoOutputDevice => EventView::NoOutputDevice,
            Event::CapabilityQueryFailed => EventView::CapabilityQueryFailed,
            Event::Capabilities(ranges) => EventView::Capabilities(ranges@),
            Event::OpenFailed => EventView::OpenFailed,
            Event::Opened => EventView::Opened,
        }
    }
}

impl EventView {
    /// Whether the event asks the supervisor to end: a request to shut down,
    /// or the loss of the channel, which counts as one.
    pub open spec fn ends(self) -> bool {
        self == EventView::Lifecycle(LifecycleEvent::ShutdownRequested) || self
            == EventView::ChannelClosed
    }
}

/// What the supervisor tells its driver to do next.
#[derive(Debug, PartialEq, Eq)]
pub enum Action {
    /// Put the event on the supervisor's own channel, then take the next
    /// event from the channel.
    Enqueue(LifecycleEvent),
    /// Take the next event from the channel.
    Wait,
    /// Give up the held stream as `release` says, then look for the default
    /// output device and ask it for its configurations.
    Probe { release: Release },
    /// Make `config` the format of the mixer, then try to open a stream with
    /// it whose error handler owns `latch`.
    Open { config: StreamConfig, latch: ErrorLatch },
    /// Start the stream that was opened and hold on to it, then take the next
    /// event from the channel.
    Install,
    /// Give up the held stream as `release` says, record `failure` if there is
    /// one, and end.
    Stop { release: Release, failure: Option<EngineError> },
}

impl Action {
    /// The failure that the action reports, if it reports one.
    pub open spec fn failure(self) -> Option<EngineError> {
        match self {
            Action::Stop { failure, .. } => failure,
            _ => None,
        }
    }
}

/// The supervisor as contracts see it.
pub struct Supervisor {
    pub state: SupervisorState,
    pub policy: ReleasePolicy,
    /// The candidates that are left to try, the next one last.
    pub queue: Seq<StreamConfig>,
}

impl Supervisor {
    /// A supervisor that has not done anything yet.
    pub open spec fn initial(policy: ReleasePolicy) -> Supervisor {
        Supervisor { state: SupervisorState::NoStream, policy, queue: Seq::empty() }
    }

    /// What is done with the stream handle when the supervisor leaves its
    /// state. Only a running supervisor holds one, and the policy decides.
    pub open spec fn release(self) -> Release {
        if self.state == SupervisorState::Running {
            match self.policy {
                ReleasePolicy::Drop => Release::Drop,
                ReleasePolicy::Leak => Release::Leak,
            }
        } else {
            Release::Nothing
        }
    }

    /// The supervisor ends, with or without a failure.
    pub open spec fn stop(self, failure: Option<EngineError>) -> (Supervisor, Action) {
        (
            Supervisor { state: SupervisorState::Stopped, policy: self.policy, queue: Seq::empty() },
            Action::Stop { release: self.release(), failure },
        )
    }

    /// The supervisor tries the last candidate of `queue`, or ends in failure
    /// where none is left.
    pub open spec fn attempt(self, queue: Seq<StreamConfig>) -> (Supervisor, Action) {
        if queue.len() == 0 {
            self.stop(Some(EngineError::NoSupportedConfiguration))
        } else {
            (
                Supervisor {
                    state: SupervisorState::Recreating(Phase::Opening),
                    policy: self.policy,
                    queue: queue.drop_last(),
                },
                Action::Open { config: queue.last(), latch: ErrorLatch::fresh() },
            )
        }
    }

    /// The supervisor gives up its stream and starts a negotiation.
    pub open spec fn recreate(self) -> (Supervisor, Action) {
        (
            Supervisor {
                state: SupervisorState::Recreating(Phase::Probing),
                policy: self.policy,
                queue: Seq::empty(),
            },
            Action::Probe { release: self.release() },
        )
    }

    /// The state after `event`, and the action that answers it.
    ///
    /// A stopped supervisor stays stopped. Otherwise a request to shut down
    /// or a closed channel ends it, and a request to recreate starts a
    /// negotiation, in every state. What the device reports counts only in
    /// the phase that asked for it; elsewhere it is ignored.
    pub open spec fn step(self, event: EventView) -> (Supervisor, Action) {
        if self.state == SupervisorState::Stopped {
            (self, Action::Stop { release: Release::Nothing, failure: None })
        } else if event.ends() {
            self.stop(None)
        } else {
            match event {
                EventView::Lifecycle(_) => self.recreate(),
                EventView::Started => if self.state == SupervisorState::NoStream {
                    (self, Action::Enqueue(LifecycleEvent::RecreateRequested))
                } else {
                    (self, Action::Wait)
                },
                EventView::NoOutputDevice => if self.state == SupervisorState::Recreating(
                    Phase::Probing,
                ) {
                    self.stop(Some(EngineError::NoOutputDevice))
                } else {
                    (self, Action::Wait)
                },
                EventView::CapabilityQueryFailed => if self.state == SupervisorState::Recreating(
                    Phase::Probing,
                ) {
                    self.stop(Some(EngineError::CapabilityQueryFailure))
                } else {
                    (self, Action::Wait)
                },
                EventView::Capabilities(ranges) => if self.state == SupervisorState::Recreating(
                    Phase::Probing,
                ) {
                    self.attempt(ranked(ranges))
                } else {
                    (self, Action::Wait)
                },
                EventView::OpenFailed => if self.state == SupervisorState::Recreating(
                    Phase::Opening,
                ) {
                    self.attempt(self.queue)
                } else {
                    (self, Action::Wait)
                },
                EventView::Opened => if self.state == SupervisorState::Recreating(Phase::Opening) {
                    (
                        Supervisor {
                            state: SupervisorState::Running,
                            policy: self.policy,
                            queue: Seq::empty(),
                        },
                        Action::Install,
                    )
                } else {
                    (self, Action::Wait)
                },
                EventView::ChannelClosed => self.stop(None),
            }
        }
    }

    /// The supervisor after all of `events`, one after the other.
    pub open spec fn run(self, events: Seq<EventView>) -> Supervisor
        decreases events.len(),
    {
        if events.len() == 0 {
            self
        } else {
            self.step(events[0]).0.run(events.drop_first())
        }
    }

    /// The actions that answer `events`, one for each event.
    pub open spec fn actions(self, events: Seq<EventView>) -> Seq<Action>
        decreases events.len(),
    {
        if events.len() == 0 {
            Seq::empty()
        } else {
            seq![self.step(events[0]).1] + self.step(events[0]).0.actions(events.drop_first())
        }
    }

    /// `count` refusals of the device in a row.
    pub open spec fn refusals(count: nat) -> Seq<EventView> {
        Seq::new(count, |i: int| EventView::OpenFailed)
    }

    /// A stopped supervisor stays as it is, whatever comes, and asks for
    /// nothing but to end.
    pub proof fn lemma_stopped_is_final(self, events: Seq<EventView>)
        requires
            self.state == SupervisorState::Stopped,
        ensures
            self.run(events) == self,
            self.actions(events).len() == events.len(),
            forall|i: int|
                0 <= i < events.len() ==> #[trigger] self.actions(events)[i] == (Action::Stop {
                    release: Release::Nothing,
                    failure: None,
                }),
        decreases events.len(),
    {
        if events.len() > 0 {
            self.lemma_stopped_is_final(events.drop_first());
        }
    }

    /// Handling `first` and then `then` is handling the two one after the
    /// other.
    pub proof fn lemma_run_in_parts(self, first: Seq<EventView>, then: Seq<EventView>)
        ensures
            self.run(first + then) == self.run(first).run(then),
            self.actions(first + then) == self.actions(first) + self.run(first).actions(then),
            self.actions(first).len() == first.len(),
        decreases first.len(),
    {
        if first.len() == 0 {
            assert(first + then =~= then);
            assert(self.actions(first) + self.actions(then) =~= self.actions(then));
        } else {
            let next = self.step(first[0]).0;
            assert((first + then).drop_first() =~= first.drop_first() + then);
            assert((first + then)[0] == first[0]);
            next.lemma_run_in_parts(first.drop_first(), then);
            assert(seq![self.step(first[0]).1] + (next.actions(first.drop_first()) + next.run(
                first.drop_first(),
            ).actions(then)) =~= (seq![self.step(first[0]).1] + next.actions(first.drop_first()))
                + next.run(first.drop_first()).actions(then));
        }
    }

    /// Once a request to shut down has come, or the channel was lost, the
    /// supervisor is stopped, in whatever state the event found it and
    /// whatever came before or after.
    pub proof fn lemma_shutdown_stops(self, events: Seq<EventView>, at: int)
        requires
            0 <= at < events.len(),
            events[at].ends(),
        ensures
            self.run(events).state == SupervisorState::Stopped,
            self.run(events.take(at)).step(events[at]).1 is Stop,
        decreases events.len(),
    {
        let next = self.step(events[0]).0;
        if at == 0 {
            assert(events.take(0) =~= Seq::empty());
            next.lemma_stopped_is_final(events.drop_first());
        } else {
            assert(events.drop_first().take(at - 1) =~= events.take(at).drop_first());
            next.lemma_shutdown_stops(events.drop_first(), at - 1);
        }
    }

    /// A supervisor that is opening a stream, and whose device refuses every
    /// candidate, tries the queued candidates from the last to the first, then
    /// stops with the failure that no configuration is supported.
    pub proof fn lemma_refused_queue(self)
        requires
            self.state == SupervisorState::Recreating(Phase::Opening),
        ensures
            self.run(Self::refusals(self.queue.len() + 1)).state == SupervisorState::Stopped,
            self.actions(Self::refusals(self.queue.len() + 1)).len() == self.queue.len() + 1,
            forall|i: int|
                0 <= i < self.queue.len() ==> #[trigger] self.actions(
                    Self::refusals(self.queue.len() + 1),
                )[i] == (Action::Open {
                    config: self.queue[self.queue.len() - 1 - i],
                    latch: ErrorLatch::fresh(),
                }),
            self.actions(Self::refusals(self.queue.len() + 1))[self.queue.len() as int] == (
            Action::Stop {
                release: Release::Nothing,
                failure: Some(EngineError::NoSupportedConfiguration),
            }),
        decreases self.queue.len(),
    {
        let events = Self::refusals(self.queue.len() + 1);
        let rest = events.drop_first();
        let next = self.step(events[0]).0;
        let action = self.step(events[0]).1;
        assert(events[0] == EventView::OpenFailed);
        assert(self.run(events) == next.run(rest));
        assert(self.actions(events) == seq![action] + next.actions(rest));
        if self.queue.len() == 0 {
            assert(rest =~= Seq::empty());
            assert(next.run(rest) == next);
            assert(next.actions(rest) =~= Seq::empty());
        } else {
            assert(rest =~= Self::refusals(next.queue.len() + 1));
            next.lemma_refused_queue();
            let tail = next.actions(rest);
            let all = self.actions(events);
            assert forall|i: int| 0 <= i < self.queue.len() implies #[trigger] all[i] == (
            Action::Open {
                config: self.queue[self.queue.len() - 1 - i],
                latch: ErrorLatch::fresh(),
            }) by {
                if i > 0 {
                    assert(all[i] == tail[i - 1]);
                    assert(next.queue[next.queue.len() - 1 - (i - 1)] == self.queue[self.queue.len()
                        - 1 - i]);
                }
            }
            assert(all[self.queue.len() as int] == tail[self.queue.len() - 1]);
        }
    }

    /// Where the device refuses every configuration that it declared, the
    /// negotiation ends after one attempt for each range: the candidates are
    /// tried from the most preferred down, then the supervisor stops with the
    /// failure that no configuration is supported.
    pub proof fn lemma_refused_negotiation(self, ranges: Seq<ConfigRange>)
        requires
            self.state == SupervisorState::Recreating(Phase::Probing),
        ensures
            ({
                let events = seq![EventView::Capabilities(ranges)] + Self::refusals(ranges.len());
                let actions = self.actions(events);
                &&& self.run(events).state == SupervisorState::Stopped
                &&& actions.len() == ranges.len() + 1
                &&& forall|i: int|
                    0 <= i < ranges.len() ==> #[trigger] actions[i] == (Action::Open {
                        config: ranked(ranges)[ranges.len() - 1 - i],
                        latch: ErrorLatch::fresh(),
                    })
                &&& actions[ranges.len() as int] == (Action::Stop {
                    release: Release::Nothing,
                    failure: Some(EngineError::NoSupportedConfiguration),
                })
            }),
    {
        let events = seq![EventView::Capabilities(ranges)] + Self::refusals(ranges.len());
        let queue = ranked(ranges);
        crate::negotiator::lemma_ranked(ranges);
        let rest = events.drop_first();
        let next = self.step(events[0]).0;
        let action = self.step(events[0]).1;
        assert(events[0] == EventView::Capabilities(ranges));
        assert(rest =~= Self::refusals(ranges.len()));
        assert(self.run(events) == next.run(rest));
        assert(self.actions(events) == seq![action] + next.actions(rest));
        if ranges.len() == 0 {
            assert(next.run(rest) == next);
            assert(next.actions(rest) =~= Seq::empty());
        } else {
            assert(next.queue == queue.drop_last());
            next.lemma_refused_queue();
            let tail = next.actions(rest);
            let all = self.actions(events);
            assert forall|i: int| 0 <= i < ranges.len() implies #[trigger] all[i] == (Action::Open {
                config: queue[ranges.len() - 1 - i],
                latch: ErrorLatch::fresh(),
            }) by {
                if i > 0 {
                    assert(all[i] == tail[i - 1]);
                    assert(next.queue[next.queue.len() - 1 - (i - 1)] == queue[ranges.len() - 1
                        - i]);
                }
            }
            assert(all[ranges.len() as int] == tail[ranges.len() - 1]);
        }
    }

    /// Where the device refuses every configuration that it declared, the
    /// supervisor reports one failure, that no configuration is supported, and
    /// no other, whatever is told to it afterwards: it does not try again.
    pub proof fn lemma_refusal_fails_once(self, ranges: Seq<ConfigRange>, later: Seq<EventView>)
        requires
            self.state == SupervisorState::Recreating(Phase::Probing),
        ensures
            ({
                let events = seq![EventView::Capabilities(ranges)] + Self::refusals(ranges.len());
                &&& self.run(events + later).state == SupervisorState::Stopped
                &&& failures(self.actions(events + later)) == seq![
                    EngineError::NoSupportedConfiguration,
                ]
                &&& attempts(self.actions(events + later)) == ranges.len()
            }),
    {
        let events = seq![EventView::Capabilities(ranges)] + Self::refusals(ranges.len());
        let stopped = self.run(events);
        let tries = self.actions(events).take(ranges.len() as int);
        let last = seq![self.actions(events)[ranges.len() as int]];
        self.lemma_refused_negotiation(ranges);
        self.lemma_run_in_parts(events, later);
        stopped.lemma_stopped_is_final(later);
        assert(self.actions(events) =~= tries + last);
        lemma_report_in_parts(tries, last);
        lemma_report_in_parts(self.actions(events), stopped.actions(later));
        lemma_attempts_only(tries);
        lemma_no_attempts(stopped.actions(later));
        assert(failures(last.drop_first()) =~= Seq::empty());
        assert(attempts(last.drop_first()) == 0);
        assert(failures(last) =~= seq![EngineError::NoSupportedConfiguration]);
        assert(failures(tries + last) =~= seq![EngineError::NoSupportedConfiguration]);
    }
}

/// The failures that `actions` report, in their order.
pub open spec fn failures(actions: Seq<Action>) -> Seq<EngineError>
    decreases actions.len(),
{
    if actions.len() == 0 {
        Seq::empty()
    } else {
        match actions[0].failure() {
            Some(failure) => seq![failure] + failures(actions.drop_first()),
            None => failures(actions.drop_first()),
        }
    }
}

/// How many of `actions` ask for a stream to be opened.
pub open spec fn attempts(actions: Seq<Action>) -> nat
    decreases actions.len(),
{
    if actions.len() == 0 {
        0
    } else if actions[0] is Open {
        1 + attempts(actions.drop_first())
    } else {
        attempts(actions.drop_first())
    }
}

/// What two runs of actions report is what the first reports and then what
/// the second reports.
pub proof fn lemma_report_in_parts(first: Seq<Action>, then: Seq<Action>)
    ensures
        failures(first + then) == failures(first) + failures(then),
        attempts(first + then) == attempts(first) + attempts(then),
    decreases first.len(),
{
    if first.len() == 0 {
        assert(first + then =~= then);
        assert(failures(first) + failures(then) =~= failures(then));
    } else {
        assert((first + then).drop_first() =~= first.drop_first() + then);
        assert((first + then)[0] == first[0]);
        lemma_report_in_parts(first.drop_first(), then);
        match first[0].failure() {
            Some(failure) => {
                assert(seq![failure] + (failures(first.drop_first()) + failures(then)) =~= (
                seq![failure] + failures(first.drop_first())) + failures(then));
            },
            None => {},
        }
    }
}

/// Actions that all ask for a stream to be opened report no failure, and
/// each of them is an attempt.
pub proof fn lemma_attempts_only(actions: Seq<Action>)
    requires
        forall|i: int| 0 <= i < actions.len() ==> #[trigger] actions[i] is Open,
    ensures
        failures(actions) == Seq::<EngineError>::empty(),
        attempts(actions) == actions.len(),
    decreases actions.len(),
{
    if actions.len() > 0 {
        assert(actions[0] is Open);
        assert forall|i: int| 0 <= i < actions.drop_first().len() implies #[trigger] actions.drop_first()[i] is Open by {
            assert(actions.drop_first()[i] == actions[i + 1]);
        }
        lemma_attempts_only(actions.drop_first());
    }
}

/// Actions that all tell a stopped supervisor's driver to end report no
/// failure and hold no attempt.
pub proof fn lemma_no_attempts(actions: Seq<Action>)
    requires
        forall|i: int|
            0 <= i < actions.len() ==> #[trigger] actions[i] == (Action::Stop {
                release: Release::Nothing,
                failure: None,
            }),
    ensures
        failures(actions) == Seq::<EngineError>::empty(),
        attempts(actions) == 0,
    decreases actions.len(),
{
    if actions.len() > 0 {
        assert(actions[0] == (Action::Stop { release: Release::Nothing, failure: None }));
        assert forall|i: int| 0 <= i < actions.drop_first().len() implies #[trigger] actions.drop_first()[i] == (
        Action::Stop { release: Release::Nothing, failure: None }) by {
            assert(actions.drop_first()[i] == actions[i + 1]);
        }
        lemma_no_attempts(actions.drop_first());
    }
}

/// The stream supervisor.
#[derive(Debug)]
pub struct Backend {
    state: SupervisorState,
    policy: ReleasePolicy,
    queue: Vec<StreamConfig>,
}

impl View for Backend {
    type V = Supervisor;

    closed spec fn view(&self) -> Supervisor {
        Supervisor { state: self.state, policy: self.policy, queue: self.queue@ }
    }
}

impl Backend {
    /// A supervisor in its initial state, which gives up streams as `policy`
    /// says.
    pub fn start(policy: ReleasePolicy) -> (backend: Backend)
        ensures
            backend@ == Supervisor::initial(policy),
    {
        Backend { state: SupervisorState::NoStream, policy, queue: Vec::new() }
    }

    /// The state that the supervisor is in.
    pub fn state(&self) -> (state: SupervisorState)
        ensures
            state == self@.state,
    {
        self.state
    }

    /// The policy that the supervisor was started with.
    pub fn policy(&self) -> (policy: ReleasePolicy)
        ensures
            policy == self@.policy,
    {
        self.policy
    }

    /// What to do with the stream handle on leaving the current state.
    fn release(&self) -> (release: Release)
        ensures
            release == self@.release(),
    {
        match self.state {
            SupervisorState::Running => match self.policy {
                ReleasePolicy::Drop => Release::Drop,
                ReleasePolicy::Leak => Release::Leak,
            },
            _ => Release::Nothing,
        }
    }

    /// Ends the supervisor.
    fn stop(&mut self, failure: Option<EngineError>) -> (action: Action)
        ensures
            (final(self)@, action) == old(self)@.stop(failure),
    {
        let release = self.release();
        self.state = SupervisorState::Stopped;
        self.queue.clear();
        Action::Stop { release, failure }
    }

    /// Tries the next candidate of the queue.
    fn attempt(&mut self) -> (action: Action)
        ensures
            (final(self)@, action) == old(self)@.attempt(old(self)@.queue),
    {
        match self.queue.pop() {
            Some(config) => {
                self.state = SupervisorState::Recreating(Phase::Opening);
                Action::Open { config, latch: ErrorLatch::new() }
            },
            None => self.stop(Some(EngineError::NoSupportedConfiguration)),
        }
    }

    /// Takes note of `event` and says what the driver has to do next.
    pub fn handle(&mut self, event: Event) -> (action: Action)
        ensures
            final(self)@ == old(self)@.step(event@).0,
            action == old(self)@.step(event@).1,
            event@.ends() ==> final(self)@.state == SupervisorState::Stopped && action is Stop,
            final(self)@.policy == old(self)@.policy,
    {
        if let SupervisorState::Stopped = self.state {
            return Action::Stop { release: Release::Nothing, failure: None };
        }
        match event {
            Event::Lifecycle(LifecycleEvent::ShutdownRequested) | Event::ChannelClosed => {
                self.stop(None)
            },
            Event::Lifecycle(LifecycleEvent::RecreateRequested) => {
                let release = self.release();
                self.state = SupervisorState::Recreating(Phase::Probing);
                self.queue.clear();
                Action::Probe { release }
            },
            Event::Started => match self.state {
                SupervisorState::NoStream => Action::Enqueue(LifecycleEvent::RecreateRequested),
                _ => Action::Wait,
            },
            Event::NoOutputDevice => match self.state {
                SupervisorState::Recreating(Phase::Probing) => self.stop(
                    Some(EngineError::NoOutputDevice),
                ),
                _ => Action::Wait,
            },
            Event::CapabilityQueryFailed => match self.state {
                SupervisorState::Recreating(Phase::Probing) => self.stop(
                    Some(EngineError::CapabilityQueryFailure),
                ),
                _ => Action::Wait,
            },
            Event::Capabilities(ranges) => match self.state {
                SupervisorState::Recreating(Phase::Probing) => {
                    self.queue = rank_candidates(&ranges);
                    self.attempt()
                },
                _ => Action::Wait,
            },
            Event::OpenFailed => match self.state {
                SupervisorState::Recreating(Phase::Opening) => self.attempt(),
                _ => Action::Wait,
            },
            Event::Opened => match self.state {
                SupervisorState::Recreating(Phase::Opening) => {
                    self.state = SupervisorState::Running;
                    self.queue.clear();
                    Action::Install
                },
                _ => Action::Wait,
            },
        }
    }
}

} // verus!
