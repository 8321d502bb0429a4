//! The state of the one delayed retry that a session may have pending.

use vstd::prelude::*;

verus! {

/// How long a retry is delayed, in seconds.
pub const MODEL_CAPACITY_RETRY_DELAY_SECS: u64 = 30;

/// Whether a retry waits for its delay to pass, and whether the controller has
/// been cancelled for good.
#[derive(Clone, Copy, Debug, PartialEq, Eq, Structural)]
pub struct RetryState {
    pub pending: bool,
    pub cancelled: bool,
}

impl RetryState {
    /// Nothing is pending once the controller is cancelled.
    pub open spec fn valid(self) -> bool {
        self.cancelled ==> !self.pending
    }

    /// A new retry is taken on: none is pending and the controller is live.
    pub open spec fn accepts(self) -> bool {
        !self.cancelled && !self.pending
    }

    /// The state after a request for a retry.
    pub open spec fn after_schedule(self) -> RetryState {
        if self.accepts() {
            RetryState { pending: true, cancelled: false }
        } else {
            self
        }
    }

    /// The state after a cancellation.
    pub open spec fn after_cancel(self) -> RetryState {
        RetryState { pending: false, cancelled: true }
    }

    /// The state after the worker of the pending retry has stopped waiting.
    pub open spec fn after_wake(self) -> RetryState {
        RetryState { pending: false, cancelled: self.cancelled }
    }

    /// The state after a retry has been made, with success (`written`) or not.
    pub open spec fn after_retry(self, written: bool) -> RetryState {
        if written {
            self
        } else {
            self.after_cancel()
        }
    }
}

/// Owns at most one delayed retry for a session. Every method is one critical
/// section: whoever shares a controller between threads holds its lock for the
/// length of a call.
pub struct ModelCapacityRetryController {
    state: RetryState,
}

impl View for ModelCapacityRetryController {
    type V = RetryState;

    closed spec fn view(&self) -> RetryState {
        self.state
    }
}

impl ModelCapacityRetryController {
    #[verifier::type_invariant]
    spec fn state_valid(self) -> bool {
        self.state.valid()
    }

    /// A live controller with nothing pending.
    pub fn new() -> (controller: Self)
        ensures
            controller@ == (RetryState { pending: false, cancelled: false }),
    {
        ModelCapacityRetryController { state: RetryState { pending: false, cancelled: false } }
    }

    /// Asks for one retry. A second request while the first is pending is
    /// ignored, and so is any request to a cancelled controller. Where the
    /// answer is `true` the caller starts one worker, which waits for the delay.
    pub fn schedule(&mut self) -> (accepted: bool)
        ensures
            accepted == old(self)@.accepts(),
            final(self)@ == old(self)@.after_schedule(),
            accepted <==> !old(self)@.cancelled && !old(self)@.pending,
            final(self)@.cancelled == old(self)@.cancelled,
            final(self)@.pending == (accepted || old(self)@.pending),
    {
        if self.state.cancelled || self.state.pending {
            return false;
        }
        self.state = RetryState { pending: true, cancelled: false };
        true
    }

    /// Whether a worker whose delay has not passed goes on waiting.
    pub fn keeps_waiting(&self) -> (waits: bool)
        ensures
            waits == !self@.cancelled,
    {
        !self.state.cancelled
    }

    /// Ends the wait of the worker, because its delay has passed or because the
    /// controller was cancelled, and says whether its retry is due.
    pub fn wake(&mut self) -> (due: bool)
        ensures
            due == !old(self)@.cancelled,
            final(self)@ == old(self)@.after_wake(),
            final(self)@.cancelled == old(self)@.cancelled,
            !final(self)@.pending,
    {
        let cancelled = self.state.cancelled;
        self.state = RetryState { pending: false, cancelled };
        !cancelled
    }

    /// Whether a worker that has stopped waiting begins its retry: it was due, and
    /// the controller has not been cancelled since.
    pub fn begins_retry(&self, due: bool) -> (begins: bool)
        ensures
            begins == (due && !self@.cancelled),
    {
        due && !self.state.cancelled
    }

    /// Takes the outcome of a retry. One that could not be written cancels the
    /// controller for good.
    pub fn finish_retry(&mut self, written: bool)
        ensures
            final(self)@ == old(self)@.after_retry(written),
            written ==> final(self)@ == old(self)@,
            !written ==> final(self)@.cancelled && !final(self)@.pending,
    {
        if !written {
            self.cancel();
        }
    }

    /// Cancels the controller for good.
    pub fn cancel(&mut self)
        ensures
            final(self)@ == old(self)@.after_cancel(),
            final(self)@.cancelled,
            !final(self)@.pending,
    {
        self.state = RetryState { pending: false, cancelled: true };
    }

    /// Whether the controller has been cancelled.
    pub fn is_cancelled(&self) -> (cancelled: bool)
        ensures
            cancelled == self@.cancelled,
    {
        self.state.cancelled
    }
}

/// A controller together with the workers started for it: how many wait, how
/// many have been told that their retry is due, and how many are making it.
pub struct RetrySystem {
    pub state: RetryState,
    pub waiting: nat,
    pub due: nat,
    pub retrying: nat,
}

/// One critical section of a system, in the order in which the lock is taken.
pub enum RetryEvent {
    /// Somebody asks for a retry.
    Schedule,
    /// Somebody cancels the controller.
    Cancel,
    /// A waiting worker stops waiting.
    Wake,
    /// A worker whose retry is due looks once more whether it was cancelled.
    Check,
    /// A worker has made its retry.
    Finish { written: bool },
}

impl RetrySystem {
    /// A new controller without workers.
    pub open spec fn initial() -> RetrySystem {
        RetrySystem {
            state: RetryState { pending: false, cancelled: false },
            waiting: 0,
            due: 0,
            retrying: 0,
        }
    }

    /// There is a worker that can take part in the event.
    pub open spec fn enabled(self, event: RetryEvent) -> bool {
        match event {
            RetryEvent::Schedule => true,
            RetryEvent::Cancel => true,
            RetryEvent::Wake => self.waiting > 0,
            RetryEvent::Check => self.due > 0,
            RetryEvent::Finish { written } => self.retrying > 0,
        }
    }

    /// The system after the event.
    pub open spec fn after(self, event: RetryEvent) -> RetrySystem {
        match event {
            RetryEvent::Schedule => RetrySystem {
                state: self.state.after_schedule(),
                waiting: if self.state.accepts() { self.waiting + 1 } else { self.waiting },
                ..self
            },
            RetryEvent::Cancel => RetrySystem { state: self.state.after_cancel(), ..self },
            RetryEvent::Wake => RetrySystem {
                state: self.state.after_wake(),
                waiting: (self.waiting - 1) as nat,
                due: if self.state.cancelled { self.due } else { self.due + 1 },
                ..self
            },
            RetryEvent::Check => RetrySystem {
                due: (self.due - 1) as nat,
                retrying: if self.state.cancelled { self.retrying } else { self.retrying + 1 },
                ..self
            },
            RetryEvent::Finish { written } => RetrySystem {
                state: self.state.after_retry(written),
                retrying: (self.retrying - 1) as nat,
                ..self
            },
        }
    }

    /// Every event finds the worker that it needs.
    pub open spec fn possible(self, events: Seq<RetryEvent>) -> bool
        decreases events.len(),
    {
        events.len() > 0 ==> self.enabled(events[0]) && self.after(events[0]).possible(
            events.drop_first(),
        )
    }

    /// The system after the events, first to last.
    pub open spec fn after_all(self, events: Seq<RetryEvent>) -> RetrySystem
        decreases events.len(),
    {
        if events.len() == 0 {
            self
        } else {
            self.after(events[0]).after_all(events.drop_first())
        }
    }

    /// At most one worker waits; while the controller is live, one waits exactly
    /// when a retry is pending.
    pub open spec fn one_delayed_retry(self) -> bool {
        &&& self.state.valid()
        &&& self.waiting <= 1
        &&& !self.state.cancelled ==> (self.state.pending <==> self.waiting == 1)
    }
}

/// Whatever happens, in whatever order, keeps the number of delayed retries at
/// one or none, and keeps `pending` in step with it.
pub proof fn at_most_one_delayed_retry(system: RetrySystem, events: Seq<RetryEvent>)
    requires
        system.one_delayed_retry(),
        system.possible(events),
    ensures
        system.after_all(events).one_delayed_retry(),
    decreases events.len(),
{
    if events.len() > 0 {
        at_most_one_delayed_retry(system.after(events[0]), events.drop_first());
    }
}

/// A new controller starts out with no delayed retry, so every history of it
/// has at most one at any time.
pub proof fn new_controller_has_at_most_one_delayed_retry(events: Seq<RetryEvent>)
    requires
        RetrySystem::initial().possible(events),
    ensures
        RetrySystem::initial().after_all(events).one_delayed_retry(),
{
    at_most_one_delayed_retry(RetrySystem::initial(), events);
}

/// Cancellation is final: the controller stays cancelled, it takes on no further
/// retry, no worker is added, and no retry begins that had not begun before.
pub proof fn cancellation_is_final(system: RetrySystem, events: Seq<RetryEvent>)
    requires
        system.state.cancelled,
        system.possible(events),
    ensures
        system.after_all(events).state.cancelled,
        !system.after_all(events).state.accepts(),
        system.after_all(events).waiting <= system.waiting,
        system.after_all(events).due <= system.due,
        system.after_all(events).retrying <= system.retrying,
    decreases events.len(),
{
    if events.len() > 0 {
        cancellation_is_final(system.after(events[0]), events.drop_first());
    }
}

/// A retry that could not be written cancels the controller, whatever follows.
pub proof fn failed_retry_is_final(system: RetrySystem, events: Seq<RetryEvent>)
    requires
        system.enabled(RetryEvent::Finish { written: false }),
        system.after(RetryEvent::Finish { written: false }).possible(events),
    ensures
        system.after(RetryEvent::Finish { written: false }).after_all(events).state.cancelled,
{
    cancellation_is_final(system.after(RetryEvent::Finish { written: false }), events);
}

/// A live controller takes on a retry again as soon as the pending one has
/// stopped waiting, and not before.
pub proof fn wake_rearms(state: RetryState)
    ensures
        state.accepts() ==> !state.after_schedule().accepts(),
        !state.cancelled ==> state.after_wake().accepts(),
        state.after_cancel().after_wake() == state.after_cancel(),
{
}

/// What each critical section does, flag by flag: only a cancellation and a
/// failed retry set `cancelled`, and nothing clears it; only an accepted request
/// sets `pending`, and only the end of the wait or a cancellation clears it.
pub proof fn flags_change_only_for_their_reasons(state: RetryState, written: bool)
    ensures
        state.accepts() <==> !state.pending && !state.cancelled,
        state.after_schedule().cancelled == state.cancelled,
        state.after_schedule().pending <==> state.pending || !state.cancelled,
        state.after_wake().cancelled == state.cancelled,
        !state.after_wake().pending,
        state.after_cancel().cancelled,
        !state.after_cancel().pending,
        state.after_retry(written).cancelled <==> state.cancelled || !written,
        state.after_retry(written).pending <==> state.pending && written,
{
}

} // verus!
