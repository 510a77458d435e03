//! The guard that keeps one failure of a stream from asking for more than one
//! recreation.

use vstd::prelude::*;

verus! {

/// What is sent to the supervisor over its channel.
#[derive(Clone, Copy, Debug, PartialEq, Eq, Structural)]
pub enum LifecycleEvent {
    /// The stream is to be torn down and negotiated anew.
    RecreateRequested,
    /// The supervisor is to release the stream and end.
    ShutdownRequested,
}

/// A one-shot latch, owned by the error handler of one stream. A stream may
/// report one failure several times; only the first report asks for a
/// recreation. A latch is never reset: a new stream gets a new latch.
#[derive(Debug, PartialEq, Eq)]
pub struct ErrorLatch {
    tripped: bool,
}

impl ErrorLatch {
    /// Whether the latch has seen an error.
    pub closed spec fn tripped(self) -> bool {
        self.tripped
    }

    /// The latch of a handler that has seen no error yet.
    pub closed spec fn fresh() -> ErrorLatch {
        ErrorLatch { tripped: false }
    }

    /// The latch after one more error was reported.
    pub closed spec fn after_error(self) -> ErrorLatch {
        ErrorLatch { tripped: true }
    }

    /// What `count` reports of an error enqueue, one after the other, in all.
    pub open spec fn enqueued(self, count: nat) -> Seq<LifecycleEvent>
        decreases count,
    {
        if count == 0 {
            Seq::empty()
        } else {
            self.response() + self.after_error().enqueued((count - 1) as nat)
        }
    }

    /// What one report of an error enqueues.
    pub open spec fn response(self) -> Seq<LifecycleEvent> {
        if self.tripped() {
            Seq::empty()
        } else {
            seq![LifecycleEvent::RecreateRequested]
        }
    }

    /// A latch for the error handler of a newly opened stream.
    pub fn new() -> (latch: ErrorLatch)
        ensures
            latch == ErrorLatch::fresh(),
            !latch.tripped(),
    {
        ErrorLatch { tripped: false }
    }

    /// Whether an error was reported to the latch before.
    pub fn is_tripped(&self) -> (tripped: bool)
        ensures
            tripped == self.tripped(),
    {
        self.tripped
    }

    /// Takes note of an error that the stream reported. The first report
    /// returns the request to enqueue; every later one returns nothing.
    pub fn notify(&mut self) -> (request: Option<LifecycleEvent>)
        ensures
            *final(self) == old(self).after_error(),
            final(self).tripped(),
            request == if old(self).tripped() {
                None
            } else {
                Some(LifecycleEvent::RecreateRequested)
            },
            request.is_some() <==> old(self).response().len() == 1,
    {
        if self.tripped {
            None
        } else {
            self.tripped = true;
            Some(LifecycleEvent::RecreateRequested)
        }
    }

    /// A latch that has seen an error stays tripped and enqueues nothing more,
    /// however many reports follow.
    pub proof fn lemma_tripped_is_silent(self, count: nat)
        requires
            self.tripped(),
        ensures
            self.enqueued(count) == Seq::<LifecycleEvent>::empty(),
        decreases count,
    {
        if count > 0 {
            assert(self.after_error() == self);
            self.lemma_tripped_is_silent((count - 1) as nat);
            assert(self.response() + self.enqueued((count - 1) as nat) =~= Seq::empty());
        }
    }

    /// However often one failure is reported to the handler of a stream, one
    /// request for recreation is enqueued, by the first report.
    pub proof fn lemma_one_request_per_stream(count: nat)
        requires
            count >= 1,
        ensures
            ErrorLatch::fresh().enqueued(count) == seq![LifecycleEvent::RecreateRequested],
    {
        let fresh = ErrorLatch::fresh();
        fresh.after_error().lemma_tripped_is_silent((count - 1) as nat);
        assert(fresh.response() + Seq::<LifecycleEvent>::empty() =~= fresh.response());
    }
}

} // verus!
