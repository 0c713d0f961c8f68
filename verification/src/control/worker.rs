use vstd::prelude::*;
use crate::control::controller::Controller;
use crate::control::io::IO;
use crate::control::message::{Action, Message, System};
use crate::failure::Failure;
use crate::state::State;

verus! {

/// Where a worker stands, by what has been installed.
#[derive(Debug, Clone, Copy, PartialEq, Eq, Structural)]
pub enum Phase {
    /// Neither inventory nor I/O context.
    Uninitialized,
    /// Exactly one of the two.
    PartiallyReady,
    /// Both: units of work are run.
    Ready,
    /// Shut down: nothing is handled any more.
    Terminated,
}

/// The half whose absence kept a unit of work from running.
#[derive(Debug, Clone, Copy, PartialEq, Eq, Structural)]
pub enum Missing {
    State,
    Context,
}

/// What handling one message came to, and what is left for the caller to do.
pub enum Outcome {
    /// The unit of work ran, with this result.
    Executed(Result<(), Failure>),
    /// The unit of work was dropped unrun, for want of this half.
    Discarded(Missing),
    /// The I/O context was installed.
    ContextSet,
    /// The caller is to load the inventory from this path and hand the
    /// result to `install`.
    Load(String),
    /// The caller is to store the current inventory at this path.
    Store(String),
    /// A store was asked for with no inventory installed: nothing to do.
    Skipped,
    /// The worker has shut down: the caller is to stop feeding it.
    Shutdown,
    /// The message reached a worker that had shut down, and was dropped.
    Ignored,
}

impl Outcome {
    pub open spec fn spec_pauses(&self) -> bool {
        match self {
            Outcome::Load(_) | Outcome::Store(_) | Outcome::Shutdown | Outcome::Ignored => true,
            _ => false,
        }
    }

    /// Whether the caller has something to do before the next message is
    /// handled: outside work, or to stop.
    pub fn pauses(&self) -> (pauses: bool)
        ensures
            pauses == self.spec_pauses(),
    {
        match self {
            Outcome::Load(_) | Outcome::Store(_) | Outcome::Shutdown | Outcome::Ignored => true,
            _ => false,
        }
    }
}

/// The sole owner of the inventory and the I/O context. `M` is the type of
/// the messages that the installed handle submits.
#[verifier::reject_recursive_types(M)]
pub struct Worker<M> {
    state: Option<State>,
    context: Option<IO<M>>,
    running: bool,
}

/// `call`, run on `state` and `io`, may leave them as `state_after` and
/// `io_after` and return `result`.
pub open spec fn performs<M, F: FnOnce(State, IO<M>) -> (State, IO<M>, Result<(), Failure>)>(
    call: F,
    state: State,
    io: IO<M>,
    state_after: State,
    io_after: IO<M>,
    result: Result<(), Failure>,
) -> bool {
    call_ensures(call, (state, io), (state_after, io_after, result))
}

/// `call` can be run on every well-formed inventory, with any I/O context,
/// and leaves the inventory well-formed.
pub open spec fn admissible<M, F: FnOnce(State, IO<M>) -> (State, IO<M>, Result<(), Failure>)>(
    call: F,
) -> bool {
    &&& forall|state: State, io: IO<M>| state.wf() ==> #[trigger] call_requires(call, (state, io))
    &&& forall|state: State, io: IO<M>, out: (State, IO<M>, Result<(), Failure>)|
        state.wf() && #[trigger] call_ensures(call, (state, io), out) ==> out.0.wf()
}

/// Every unit of work that `message` carries is admissible.
pub open spec fn acceptable<M, F: FnOnce(State, IO<M>) -> (State, IO<M>, Result<(), Failure>)>(
    message: Message<F>,
) -> bool {
    message matches Message::Action(Action::Call(call)) ==> admissible::<M, F>(call)
}

impl<M> Worker<M> {
    /// The installed inventory, if any.
    pub closed spec fn resource(&self) -> Option<State> {
        self.state
    }

    /// The installed I/O context, if any.
    pub closed spec fn io(&self) -> Option<IO<M>> {
        self.context
    }

    /// Whether the worker still handles messages.
    pub closed spec fn alive(&self) -> bool {
        self.running
    }

    /// An installed inventory is well-formed.
    pub open spec fn wf(&self) -> bool {
        self.resource() matches Some(state) ==> state.wf()
    }

    pub open spec fn spec_phase(&self) -> Phase {
        if !self.alive() {
            Phase::Terminated
        } else if self.resource().is_some() && self.io().is_some() {
            Phase::Ready
        } else if self.resource().is_some() || self.io().is_some() {
            Phase::PartiallyReady
        } else {
            Phase::Uninitialized
        }
    }

    /// How `before` and `after` relate when `before` handles `message`
    /// with outcome `outcome`, `controller` being the handle that a newly
    /// installed I/O context gets a clone of.
        pub open spec fn handles<F: FnOnce(State, IO<M>) -> (State, IO<M>, Result<(), Failure>)>(
        before: Self,
        controller: Controller<M>,
        message: Message<F>,
        after: Self,
        outcome: Outcome,
    ) -> bool {
        if !before.alive() {
            after == before && outcome == Outcome::Ignored
        } else {
            match message {
                Message::Action(Action::Call(call)) => match (before.resource(), before.io()) {
                    (Some(state), Some(io)) => {
                        &&& after.alive()
                        &&& outcome matches Outcome::Executed(result)
                        &&& after.resource() matches Some(state_after)
                        &&& after.io() matches Some(io_after)
                        &&& performs(call, state, io, state_after, io_after, result)
                    },
                    (None, _) => after == before && outcome == Outcome::Discarded(Missing::State),
                    (Some(_), None) => after == before && outcome == Outcome::Discarded(
                        Missing::Context,
                    ),
                },
                Message::System(System::Shutdown) => {
                    &&& !after.alive()
                    &&& after.resource() == before.resource()
                    &&& after.io() == before.io()
                    &&& outcome == Outcome::Shutdown
                },
                Message::System(System::SetContext(context)) => {
                    &&& after.alive()
                    &&& after.resource() == before.resource()
                    &&& after.io() matches Some(io)
                    &&& io.context == context
                    &&& cloned(controller, io.controller)
                    &&& outcome == Outcome::ContextSet
                },
                Message::System(System::Reload(path)) => after == before && outcome
                    == Outcome::Load(path),
                Message::System(System::Store(path)) => after == before && outcome == (
                if before.resource().is_some() {
                    Outcome::Store(path)
                } else {
                    Outcome::Skipped
                }),
            }
        }
    }

    /// `after` is what `before` becomes by handling `messages` one after
    /// the other, from the first to the last, and `outcomes` holds what
    /// each of them came to, in the same order.
    pub open spec fn traces<F: FnOnce(State, IO<M>) -> (State, IO<M>, Result<(), Failure>)>(
        before: Self,
        controller: Controller<M>,
        messages: Seq<Message<F>>,
        outcomes: Seq<Outcome>,
        after: Self,
    ) -> bool
        decreases messages.len(),
    {
        if messages.len() == 0 {
            outcomes.len() == 0 && after == before
        } else {
            &&& outcomes.len() == messages.len()
            &&& exists|mid: Self|
                {
                    &&& Self::traces(
                        before,
                        controller,
                        messages.drop_last(),
                        outcomes.drop_last(),
                        mid,
                    )
                    &&& #[trigger] Self::handles(
                        mid,
                        controller,
                        messages.last(),
                        after,
                        outcomes.last(),
                    )
                }
        }
    }

    /// How `before` and `after` relate when `before` takes in `loaded`,
    /// what loading the inventory gave.
    pub open spec fn installs(before: Self, loaded: Result<State, Failure>, after: Self) -> bool {
        &&& after.io() == before.io()
        &&& after.alive() == before.alive()
        &&& after.resource() == match loaded {
            Ok(state) => Some(state),
            Err(_) => before.resource(),
        }
    }

    /// Running `calls` one after the other, each on what the one before
    /// left, leads from `state` and `io` to `state_after` and `io_after`.
    pub open spec fn composes<F: FnOnce(State, IO<M>) -> (State, IO<M>, Result<(), Failure>)>(
        calls: Seq<F>,
        state: State,
        io: IO<M>,
        state_after: State,
        io_after: IO<M>,
    ) -> bool
        decreases calls.len(),
    {
        if calls.len() == 0 {
            state_after == state && io_after == io
        } else {
            exists|s: State, i: IO<M>, result: Result<(), Failure>|
                {
                    &&& Self::composes(calls.drop_last(), state, io, s, i)
                    &&& #[trigger] performs(calls.last(), s, i, state_after, io_after, result)
                }
        }
    }

    /// A worker with nothing installed.
    pub fn new() -> (worker: Self)
        ensures
            worker.resource().is_none(),
            worker.io().is_none(),
            worker.alive(),
            worker.wf(),
            worker.spec_phase() == Phase::Uninitialized,
    {
        Worker { state: None, context: None, running: true }
    }

    /// Where the worker stands.
    pub fn phase(&self) -> (phase: Phase)
        ensures
            phase == self.spec_phase(),
    {
        if !self.running {
            Phase::Terminated
        } else if self.state.is_some() && self.context.is_some() {
            Phase::Ready
        } else if self.state.is_some() || self.context.is_some() {
            Phase::PartiallyReady
        } else {
            Phase::Uninitialized
        }
    }

    /// The installed inventory, if any.
    pub fn state(&self) -> (state: Option<&State>)
        ensures
            match state {
                Some(state) => self.resource() == Some(*state),
                None => self.resource().is_none(),
            },
    {
        self.state.as_ref()
    }

    /// Handles one message. A unit of work is run if and only if both the
    /// inventory and the I/O context are installed; otherwise it is dropped
    /// unrun. A command changes what is installed, or is handed back to the
    /// caller as the outside work it asks for. After a shutdown every
    /// message is dropped.
    pub fn handle<F: FnOnce(State, IO<M>) -> (State, IO<M>, Result<(), Failure>)>(
        &mut self,
        controller: &Controller<M>,
        message: Message<F>,
    ) -> (outcome: Outcome)
        requires
            old(self).wf(),
            acceptable::<M, F>(message),
        ensures
            final(self).wf(),
            Self::handles(*old(self), *controller, message, *final(self), outcome),
    {
        if !self.running {
            return Outcome::Ignored;
        }
        match message {
            Message::Action(Action::Call(call)) => {
                if self.state.is_none() {
                    return Outcome::Discarded(Missing::State);
                }
                if self.context.is_none() {
                    return Outcome::Discarded(Missing::Context);
                }
                let state = self.state.take().unwrap();
                let io = self.context.take().unwrap();
                let (state, io, result) = call(state, io);
                self.state = Some(state);
                self.context = Some(io);
                Outcome::Executed(result)
            },
            Message::System(System::Shutdown) => {
                self.running = false;
                Outcome::Shutdown
            },
            Message::System(System::SetContext(context)) => {
                self.context = Some(IO { context, controller: controller.clone() });
                Outcome::ContextSet
            },
            Message::System(System::Reload(path)) => Outcome::Load(path),
            Message::System(System::Store(path)) => {
                if self.state.is_some() {
                    Outcome::Store(path)
                } else {
                    Outcome::Skipped
                }
            },
        }
    }

    /// Handles the messages of `inbox` from the front, in the order in
    /// which they stand, and takes each out as it is handled. Stops behind
    /// the first message whose outcome pauses, or when the inbox has run
    /// empty. Returns the outcomes of the messages it handled, in order:
    /// only the last of them can be one that pauses.
    pub fn inner_loop<F: FnOnce(State, IO<M>) -> (State, IO<M>, Result<(), Failure>)>(
        &mut self,
        controller: &Controller<M>,
        inbox: &mut Vec<Message<F>>,
    ) -> (journal: Vec<Outcome>)
        requires
            old(self).wf(),
            forall|k: int| 0 <= k < old(inbox).len() ==> acceptable::<M, F>(#[trigger] old(inbox)@[k]),
        ensures
            final(self).wf(),
            journal.len() <= old(inbox).len(),
            final(inbox)@ == old(inbox)@.skip(journal.len() as int),
            Self::traces(
                *old(self),
                *controller,
                old(inbox)@.take(journal.len() as int),
                journal@,
                *final(self),
            ),
            forall|k: int| 0 <= k < journal.len() - 1 ==> !(#[trigger] journal[k]).spec_pauses(),
            journal.len() < old(inbox).len() ==> journal.len() > 0 && journal[journal.len()
                - 1].spec_pauses(),
    {
        let ghost start = *self;
        let ghost all = inbox@;
        let mut journal: Vec<Outcome> = Vec::new();
        assert(all.take(0).len() == 0);
        while inbox.len() > 0
            invariant
                self.wf(),
                start == *old(self),
                all == old(inbox)@,
                journal.len() <= all.len(),
                inbox@ == all.skip(journal.len() as int),
                Self::traces(start, *controller, all.take(journal.len() as int), journal@, *self),
                forall|k: int| 0 <= k < journal.len() ==> !(#[trigger] journal[k]).spec_pauses(),
                forall|k: int| 0 <= k < all.len() ==> acceptable::<M, F>(#[trigger] all[k]),
            decreases inbox.len(),
        {
            let ghost mid = *self;
            let ghost handled = journal.len() as int;
            let ghost earlier = journal@;
            assert(inbox@[0] == all[handled]);
            let message = inbox.remove(0);
            let outcome = self.handle(controller, message);
            let pauses = outcome.pauses();
            journal.push(outcome);
            proof {
                let prefix = all.take(handled + 1);
                assert(prefix.drop_last() == all.take(handled));
                assert(prefix.last() == all[handled]);
                assert(journal@.drop_last() == earlier);
                assert(Self::handles(mid, *controller, prefix.last(), *self, journal@.last()));
                assert(Self::traces(start, *controller, prefix, journal@, *self));
                assert(inbox@ == all.skip(handled + 1));
            }
            if pauses {
                return journal;
            }
        }
        journal
    }

    /// Runs `query` as a unit of work and hands back what it computed: the
    /// value comes from the inventory and the I/O context exactly as they
    /// stood when the query ran. A worker that is not ready drops the query
    /// unrun and returns `None`.
    pub fn read<C: FnOnce(State, IO<M>) -> (State, IO<M>, R), R>(&mut self, query: C) -> (answer:
        Option<R>)
        requires
            old(self).wf(),
            forall|state: State, io: IO<M>|
                state.wf() ==> #[trigger] call_requires(query, (state, io)),
            forall|state: State, io: IO<M>, out: (State, IO<M>, R)|
                state.wf() && #[trigger] call_ensures(query, (state, io), out) ==> out.0.wf(),
        ensures
            final(self).wf(),
            final(self).alive() == old(self).alive(),
            match (old(self).spec_phase(), old(self).resource(), old(self).io()) {
                (Phase::Ready, Some(state), Some(io)) => {
                    &&& answer matches Some(value)
                    &&& final(self).resource() matches Some(state_after)
                    &&& final(self).io() matches Some(io_after)
                    &&& call_ensures(query, (state, io), (state_after, io_after, value))
                },
                _ => answer.is_none() && *final(self) == *old(self),
            },
    {
        if !self.running || self.state.is_none() || self.context.is_none() {
            return None;
        }
        let state = self.state.take().unwrap();
        let io = self.context.take().unwrap();
        let (state, io, value) = query(state, io);
        self.state = Some(state);
        self.context = Some(io);
        Some(value)
    }

    /// Takes in what loading the inventory gave. A loaded inventory
    /// replaces the installed one whole; a failure leaves the worker as it
    /// was. Returns whether an inventory was installed.
    pub fn install(&mut self, loaded: Result<State, Failure>) -> (installed: bool)
        requires
            old(self).wf(),
            loaded matches Ok(state) ==> state.wf(),
        ensures
            final(self).wf(),
            installed == loaded.is_ok(),
            Self::installs(*old(self), loaded, *final(self)),
    {
        match loaded {
            Ok(state) => {
                self.state = Some(state);
                true
            },
            Err(_) => false,
        }
    }
}

/// `calls` as the messages that submit them, in the same order.
pub open spec fn as_actions<F>(calls: Seq<F>) -> Seq<Message<F>> {
    Seq::new(calls.len(), |k: int| Message::Action(Action::Call(calls[k])))
}

impl<M> Worker<M> {
    /// A ready worker runs the unit of work it is handed: it stays ready,
    /// and what is installed afterwards is what the unit of work left.
    pub proof fn lemma_ready_runs<F: FnOnce(State, IO<M>) -> (State, IO<M>, Result<(), Failure>)>(
        before: Self,
        controller: Controller<M>,
        call: F,
        after: Self,
        outcome: Outcome,
    )
        requires
            before.spec_phase() == Phase::Ready,
            Self::handles(before, controller, Message::Action(Action::Call(call)), after, outcome),
        ensures
            after.spec_phase() == Phase::Ready,
            !outcome.spec_pauses(),
            outcome matches Outcome::Executed(result) && performs(
                call,
                before.resource().unwrap(),
                before.io().unwrap(),
                after.resource().unwrap(),
                after.io().unwrap(),
                result,
            ),
    {
    }

    /// Units of work submitted to a ready worker take effect one after the
    /// other, in the order of submission: every one of them is run, what
    /// is installed after the last is the composition of their effects,
    /// each starting from what the one before left, and the worker is
    /// ready throughout.
    pub proof fn lemma_actions_compose<
        F: FnOnce(State, IO<M>) -> (State, IO<M>, Result<(), Failure>),
    >(before: Self, controller: Controller<M>, calls: Seq<F>, outcomes: Seq<Outcome>, after: Self)
        requires
            before.spec_phase() == Phase::Ready,
            Self::traces(before, controller, as_actions(calls), outcomes, after),
        ensures
            after.spec_phase() == Phase::Ready,
            outcomes.len() == calls.len(),
            forall|k: int| 0 <= k < outcomes.len() ==> (#[trigger] outcomes[k]) is Executed,
            Self::composes(
                calls,
                before.resource().unwrap(),
                before.io().unwrap(),
                after.resource().unwrap(),
                after.io().unwrap(),
            ),
        decreases calls.len(),
    {
        let messages = as_actions(calls);
        if calls.len() > 0 {
            let mid = choose|mid: Self|
                {
                    &&& Self::traces(
                        before,
                        controller,
                        messages.drop_last(),
                        outcomes.drop_last(),
                        mid,
                    )
                    &&& #[trigger] Self::handles(
                        mid,
                        controller,
                        messages.last(),
                        after,
                        outcomes.last(),
                    )
                };
            assert(messages.drop_last() == as_actions(calls.drop_last()));
            assert(messages.last() == Message::Action(Action::Call(calls.last())));
            Self::lemma_actions_compose(
                before,
                controller,
                calls.drop_last(),
                outcomes.drop_last(),
                mid,
            );
            Self::lemma_ready_runs(mid, controller, calls.last(), after, outcomes.last());
            assert forall|k: int| 0 <= k < outcomes.len() implies (
            #[trigger] outcomes[k]) is Executed by {
                if k < outcomes.len() - 1 {
                    assert(outcomes[k] == outcomes.drop_last()[k]);
                }
            }
        }
    }

    /// Handling one batch of messages and then another comes to the same
    /// as handling all of them as one batch, in the same order: how the
    /// arriving messages are cut into batches makes no difference.
    pub proof fn lemma_traces_append<
        F: FnOnce(State, IO<M>) -> (State, IO<M>, Result<(), Failure>),
    >(
        before: Self,
        controller: Controller<M>,
        first: Seq<Message<F>>,
        first_outcomes: Seq<Outcome>,
        between: Self,
        second: Seq<Message<F>>,
        second_outcomes: Seq<Outcome>,
        after: Self,
    )
        requires
            Self::traces(before, controller, first, first_outcomes, between),
            Self::traces(between, controller, second, second_outcomes, after),
        ensures
            Self::traces(
                before,
                controller,
                first + second,
                first_outcomes + second_outcomes,
                after,
            ),
        decreases second.len(),
    {
        assert(first_outcomes.len() == first.len());
        assert(second_outcomes.len() == second.len());
        if second.len() == 0 {
            assert(first + second =~= first);
            assert(first_outcomes + second_outcomes =~= first_outcomes);
        } else {
            let mid = choose|mid: Self|
                {
                    &&& Self::traces(
                        between,
                        controller,
                        second.drop_last(),
                        second_outcomes.drop_last(),
                        mid,
                    )
                    &&& #[trigger] Self::handles(
                        mid,
                        controller,
                        second.last(),
                        after,
                        second_outcomes.last(),
                    )
                };
            Self::lemma_traces_append(
                before,
                controller,
                first,
                first_outcomes,
                between,
                second.drop_last(),
                second_outcomes.drop_last(),
                mid,
            );
            let all = first + second;
            let all_outcomes = first_outcomes + second_outcomes;
            assert(all.drop_last() =~= first + second.drop_last());
            assert(all_outcomes.drop_last() =~= first_outcomes + second_outcomes.drop_last());
            assert(all.last() == second.last());
            assert(all_outcomes.last() == second_outcomes.last());
            assert(Self::handles(mid, controller, all.last(), after, all_outcomes.last()));
        }
    }

    /// A reload first asks the caller to load from the given path and
    /// changes nothing. What was loaded then replaces the installed
    /// inventory whole; where loading failed, the inventory that was
    /// installed, or its absence, stays. The I/O context is untouched
    /// either way.
    pub proof fn lemma_reload_replaces_or_keeps(
        before: Self,
        controller: Controller<M>,
        path: String,
        asked: Self,
        outcome: Outcome,
        loaded: Result<State, Failure>,
        after: Self,
    )
        requires
            before.alive(),
            Self::handles::<spec_fn(State, IO<M>) -> (State, IO<M>, Result<(), Failure>)>(
                before,
                controller,
                Message::System(System::Reload(path)),
                asked,
                outcome,
            ),
            Self::installs(asked, loaded, after),
        ensures
            outcome == Outcome::Load(path),
            asked == before,
            after.io() == before.io(),
            loaded matches Ok(state) ==> after.resource() == Some(state),
            loaded is Err ==> after.resource() == before.resource(),
    {
    }

    /// A worker that lacks the inventory or the I/O context never runs a
    /// unit of work: it drops it, says which half was missing, and stays
    /// exactly as it was.
    pub proof fn lemma_unready_discards<
        F: FnOnce(State, IO<M>) -> (State, IO<M>, Result<(), Failure>),
    >(before: Self, controller: Controller<M>, call: F, after: Self, outcome: Outcome)
        requires
            before.spec_phase() == Phase::Uninitialized || before.spec_phase()
                == Phase::PartiallyReady,
            Self::handles(before, controller, Message::Action(Action::Call(call)), after, outcome),
        ensures
            after == before,
            outcome == Outcome::Discarded(
                if before.resource().is_none() {
                    Missing::State
                } else {
                    Missing::Context
                },
            ),
    {
    }

    /// The I/O context and the inventory can be installed in either order:
    /// once both are there the worker is ready, and a later installation
    /// of one leaves the other untouched.
    pub proof fn lemma_installation_order(
        before: Self,
        controller: Controller<M>,
        context: crate::context::Context,
        after: Self,
        outcome: Outcome,
    )
        requires
            before.alive(),
            Self::handles::<spec_fn(State, IO<M>) -> (State, IO<M>, Result<(), Failure>)>(
                before,
                controller,
                Message::System(System::SetContext(context)),
                after,
                outcome,
            ),
        ensures
            after.resource() == before.resource(),
            after.io().is_some(),
            before.resource().is_some() ==> after.spec_phase() == Phase::Ready,
            before.resource().is_none() ==> after.spec_phase() == Phase::PartiallyReady,
    {
    }

    /// A request to store, handled with no inventory installed, changes
    /// nothing and asks nothing of the caller; with an inventory installed
    /// it changes nothing and asks the caller to store at the given path.
    pub proof fn lemma_store_leaves_worker(
        before: Self,
        controller: Controller<M>,
        path: String,
        after: Self,
        outcome: Outcome,
    )
        requires
            before.alive(),
            Self::handles::<spec_fn(State, IO<M>) -> (State, IO<M>, Result<(), Failure>)>(
                before,
                controller,
                Message::System(System::Store(path)),
                after,
                outcome,
            ),
        ensures
            after == before,
            before.resource().is_none() ==> outcome == Outcome::Skipped,
            before.resource().is_some() ==> outcome == Outcome::Store(path),
    {
    }

    /// A shutdown ends the worker whatever is installed: it keeps what it
    /// holds, handles nothing further, and tells the caller to stop.
    pub proof fn lemma_shutdown_terminates(
        before: Self,
        controller: Controller<M>,
        after: Self,
        outcome: Outcome,
    )
        requires
            before.alive(),
            Self::handles::<spec_fn(State, IO<M>) -> (State, IO<M>, Result<(), Failure>)>(
                before,
                controller,
                Message::System(System::Shutdown),
                after,
                outcome,
            ),
        ensures
            after.spec_phase() == Phase::Terminated,
            after.resource() == before.resource(),
            after.io() == before.io(),
            outcome == Outcome::Shutdown,
            outcome.spec_pauses(),
    {
    }

    /// After a shutdown nothing is handled any more: every message is
    /// dropped and the worker stays as it is.
    pub proof fn lemma_terminated_ignores<
        F: FnOnce(State, IO<M>) -> (State, IO<M>, Result<(), Failure>),
    >(before: Self, controller: Controller<M>, message: Message<F>, after: Self, outcome: Outcome)
        requires
            before.spec_phase() == Phase::Terminated,
            Self::handles(before, controller, message, after, outcome),
        ensures
            after == before,
            outcome == Outcome::Ignored,
    {
    }
}

} // verus!
