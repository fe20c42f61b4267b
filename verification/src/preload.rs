//! The preload state machine: from idle, through loading, to loaded or to a
//! fatal failure.

use vstd::prelude::*;
use crate::status::PollOutcome;

verus! {

/// The loads that are outstanding while the machine is loading.
#[derive(Debug, PartialEq, Eq)]
pub enum LoadingAssetBatch<H> {
    /// One aggregate handle for everything under the asset root.
    Folder(H),
    /// One handle for each path of the manifest.
    Handles(Vec<H>),
}

/// The handles of every loaded asset, kept so that no asset is released.
#[derive(Debug, PartialEq, Eq)]
pub struct RetainedAssets<H> {
    handles: Vec<H>,
}

/// Why the process has to abort.
#[derive(Clone, Copy, Debug, PartialEq, Eq, Structural)]
pub enum Fault {
    /// A load has failed.
    LoadFailed,
    /// The aggregate load has completed, and the host holds no handles for it.
    FolderUnavailable,
}

/// What the host has to do after a step of the machine.
#[derive(Clone, Copy, Debug, PartialEq, Eq, Structural)]
pub enum Action {
    /// Nothing.
    Nothing,
    /// Request the switch to the ready state. The assets are retained by then.
    SwitchState,
    /// Abort the process with a diagnostic.
    Abort(Fault),
}

/// What happened at the host.
#[derive(Debug, PartialEq, Eq)]
pub enum Event<H> {
    /// The host entered the loading state and issued the load requests of
    /// the batch.
    Entered(LoadingAssetBatch<H>),
    /// The host polled the batch, with this outcome. For an aggregate load
    /// that has completed, the host adds the handles that the load brought,
    /// where it holds them.
    Polled(PollOutcome, Option<Vec<H>>),
}

/// The preload state machine.
#[derive(Debug, PartialEq, Eq)]
pub enum Preloader<H> {
    /// The host has not entered the loading state yet.
    Idle,
    /// The loads of the batch are outstanding.
    Loading(LoadingAssetBatch<H>),
    /// Every load has completed and the assets are retained.
    Loaded(RetainedAssets<H>),
    /// A load has failed: the process aborts.
    Failed,
}

/// A batch, as the contracts speak of it.
pub enum BatchModel<H> {
    Folder(H),
    Handles(Seq<H>),
}

/// An event, as the contracts speak of it.
pub enum EventModel<H> {
    Entered(BatchModel<H>),
    Polled(PollOutcome, Option<Seq<H>>),
}

/// A state of the machine, as the contracts speak of it.
pub enum StateModel<H> {
    Idle,
    Loading(BatchModel<H>),
    Loaded(Seq<H>),
    Failed,
}

impl<H> View for LoadingAssetBatch<H> {
    type V = BatchModel<H>;

    open spec fn view(&self) -> BatchModel<H> {
        match *self {
            LoadingAssetBatch::Folder(handle) => BatchModel::Folder(handle),
            LoadingAssetBatch::Handles(handles) => BatchModel::Handles(handles@),
        }
    }
}

impl<H> View for RetainedAssets<H> {
    type V = Seq<H>;

    closed spec fn view(&self) -> Seq<H> {
        self.handles@
    }
}

impl<H> View for Event<H> {
    type V = EventModel<H>;

    open spec fn view(&self) -> EventModel<H> {
        match *self {
            Event::Entered(batch) => EventModel::Entered(batch@),
            Event::Polled(outcome, contents) => EventModel::Polled(
                outcome,
                match contents {
                    Some(handles) => Some(handles@),
                    None => None,
                },
            ),
        }
    }
}

impl<H> View for Preloader<H> {
    type V = StateModel<H>;

    open spec fn view(&self) -> StateModel<H> {
        match *self {
            Preloader::Idle => StateModel::Idle,
            Preloader::Loading(batch) => StateModel::Loading(batch@),
            Preloader::Loaded(retained) => StateModel::Loaded(retained@),
            Preloader::Failed => StateModel::Failed,
        }
    }
}

/// The state and the action that follow `state` on `event`.
///
/// Entering starts the loading, once, from idle. A poll counts while the
/// machine is loading: a failure aborts; completion retains the handles of
/// the batch (those that the aggregate load brought, or the handles of the
/// batch themselves) and requests the switch; anything else changes nothing.
/// An aggregate load that has completed without handles to retain aborts too.
pub open spec fn next<H>(state: StateModel<H>, event: EventModel<H>) -> (StateModel<H>, Action) {
    match (state, event) {
        (StateModel::Idle, EventModel::Entered(batch)) => (StateModel::Loading(batch), Action::Nothing),
        (StateModel::Loading(batch), EventModel::Polled(outcome, contents)) => match outcome {
            PollOutcome::Pending => (state, Action::Nothing),
            PollOutcome::Failed => (StateModel::Failed, Action::Abort(Fault::LoadFailed)),
            PollOutcome::Done => match batch {
                BatchModel::Handles(handles) => (StateModel::Loaded(handles), Action::SwitchState),
                BatchModel::Folder(_) => match contents {
                    Some(handles) => (StateModel::Loaded(handles), Action::SwitchState),
                    None => (StateModel::Failed, Action::Abort(Fault::FolderUnavailable)),
                },
            },
        },
        _ => (state, Action::Nothing),
    }
}

impl<H> RetainedAssets<H> {
    /// The retained handles.
    pub fn handles(&self) -> (handles: &Vec<H>)
        ensures
            handles@ == self@,
    {
        &self.handles
    }
}

impl<H> Preloader<H> {
    /// The machine before the host enters the loading state.
    pub fn new() -> (machine: Self)
        ensures
            machine@ == StateModel::<H>::Idle,
    {
        Preloader::Idle
    }

    /// Takes one step: gives the next state, and what the host has to do.
    pub fn step(self, event: Event<H>) -> (after: (Self, Action))
        ensures
            (after.0@, after.1) == next(self@, event@),
    {
        match self {
            Preloader::Idle => match event {
                Event::Entered(batch) => (Preloader::Loading(batch), Action::Nothing),
                Event::Polled(_, _) => (Preloader::Idle, Action::Nothing),
            },
            Preloader::Loading(batch) => match event {
                Event::Entered(_) => (Preloader::Loading(batch), Action::Nothing),
                Event::Polled(outcome, contents) => match outcome {
                    PollOutcome::Pending => (Preloader::Loading(batch), Action::Nothing),
                    PollOutcome::Failed => (Preloader::Failed, Action::Abort(Fault::LoadFailed)),
                    PollOutcome::Done => match batch {
                        LoadingAssetBatch::Handles(handles) => (
                            Preloader::Loaded(RetainedAssets { handles }),
                            Action::SwitchState,
                        ),
                        LoadingAssetBatch::Folder(_) => match contents {
                            Some(handles) => (
                                Preloader::Loaded(RetainedAssets { handles }),
                                Action::SwitchState,
                            ),
                            None => (Preloader::Failed, Action::Abort(Fault::FolderUnavailable)),
                        },
                    },
                },
            },
            Preloader::Loaded(retained) => (Preloader::Loaded(retained), Action::Nothing),
            Preloader::Failed => (Preloader::Failed, Action::Nothing),
        }
    }
}

/// `event` is a poll with the outcome `outcome`.
pub open spec fn reports<H>(event: EventModel<H>, outcome: PollOutcome) -> bool {
    match event {
        EventModel::Polled(reported, _) => reported == outcome,
        EventModel::Entered(_) => false,
    }
}

/// The state that the machine reaches from `state` over `events`, and the
/// actions that it asks for on the way, one for each event.
pub open spec fn run<H>(state: StateModel<H>, events: Seq<EventModel<H>>) -> (
    StateModel<H>,
    Seq<Action>,
)
    decreases events.len(),
{
    if events.len() == 0 {
        (state, Seq::empty())
    } else {
        let (reached, actions) = run(state, events.drop_last());
        let (after, action) = next(reached, events.last());
        (after, actions.push(action))
    }
}

/// How many of `actions` request the switch to the ready state.
pub open spec fn switch_requests(actions: Seq<Action>) -> nat
    decreases actions.len(),
{
    if actions.len() == 0 {
        0
    } else {
        switch_requests(actions.drop_last()) + if actions.last() == Action::SwitchState {
            1nat
        } else {
            0nat
        }
    }
}

/// The handles that the machine retains when the batch completes.
pub open spec fn retained_of<H>(batch: BatchModel<H>, contents: Option<Seq<H>>) -> Seq<H>
    recommends
        batch is Folder ==> contents is Some,
{
    match batch {
        BatchModel::Handles(handles) => handles,
        BatchModel::Folder(_) => contents->Some_0,
    }
}

/// A run over one more event is the run so far and one step.
pub proof fn lemma_run_step<H>(state: StateModel<H>, events: Seq<EventModel<H>>, event: EventModel<H>)
    ensures
        run(state, events.push(event)).0 == next(run(state, events).0, event).0,
        run(state, events.push(event)).1 == run(state, events).1.push(
            next(run(state, events).0, event).1,
        ),
{
    assert(events.push(event).drop_last() =~= events);
}

/// A run over two stretches of events is the run over the first and then,
/// from where that ends, the run over the second.
pub proof fn lemma_run_concat<H>(
    state: StateModel<H>,
    first: Seq<EventModel<H>>,
    second: Seq<EventModel<H>>,
)
    ensures
        run(state, first + second).0 == run(run(state, first).0, second).0,
        run(state, first + second).1 == run(state, first).1 + run(run(state, first).0, second).1,
    decreases second.len(),
{
    if second.len() == 0 {
        assert(first + second =~= first);
        assert(run(state, first).1 + Seq::<Action>::empty() =~= run(state, first).1);
    } else {
        let event = second.last();
        lemma_run_concat(state, first, second.drop_last());
        assert((first + second).drop_last() =~= first + second.drop_last());
        assert(run(state, first).1 + run(run(state, first).0, second.drop_last()).1.push(
            next(run(run(state, first).0, second.drop_last()).0, event).1,
        ) =~= (run(state, first).1 + run(run(state, first).0, second.drop_last()).1).push(
            next(run(run(state, first).0, second.drop_last()).0, event).1,
        ));
    }
}

/// Counting the switch requests goes through a list of actions piece by
/// piece.
pub proof fn lemma_switch_requests_concat(first: Seq<Action>, second: Seq<Action>)
    ensures
        switch_requests(first + second) == switch_requests(first) + switch_requests(second),
    decreases second.len(),
{
    if second.len() == 0 {
        assert(first + second =~= first);
    } else {
        lemma_switch_requests_concat(first, second.drop_last());
        assert((first + second).drop_last() =~= first + second.drop_last());
    }
}

/// Whatever happens, the switch to the ready state is requested at most
/// once, and exactly when the machine is loaded: a machine that started idle
/// and is loaded now has requested it once, any other has not requested it.
pub proof fn lemma_switch_requested_iff_loaded<H>(events: Seq<EventModel<H>>)
    ensures
        switch_requests(run(StateModel::<H>::Idle, events).1) == if run(
            StateModel::<H>::Idle,
            events,
        ).0 is Loaded {
            1nat
        } else {
            0nat
        },
        run(StateModel::<H>::Idle, events).1.len() == events.len(),
    decreases events.len(),
{
    if events.len() > 0 {
        lemma_switch_requested_iff_loaded(events.drop_last());
        let actions = run(StateModel::<H>::Idle, events).1;
        assert(actions.drop_last() =~= run(StateModel::<H>::Idle, events.drop_last()).1);
    }
}

/// A machine that has failed stays failed, and one that is loaded stays
/// loaded, whatever happens.
pub proof fn lemma_terminal_states_stay<H>(state: StateModel<H>, events: Seq<EventModel<H>>)
    requires
        state is Failed || state is Loaded,
    ensures
        run(state, events).0 == state,
    decreases events.len(),
{
    if events.len() > 0 {
        lemma_terminal_states_stay(state, events.drop_last());
    }
}

/// While every poll is pending, a loading machine goes on loading the same
/// batch and asks for nothing.
pub proof fn lemma_pending_polls_wait<H>(batch: BatchModel<H>, polls: Seq<EventModel<H>>)
    requires
        forall|i: int| 0 <= i < polls.len() ==> reports(#[trigger] polls[i], PollOutcome::Pending),
    ensures
        run(StateModel::Loading(batch), polls).0 == StateModel::Loading(batch),
        switch_requests(run(StateModel::Loading(batch), polls).1) == 0,
    decreases polls.len(),
{
    if polls.len() > 0 {
        lemma_pending_polls_wait(batch, polls.drop_last());
        let actions = run(StateModel::Loading(batch), polls).1;
        assert(actions.drop_last() =~= run(StateModel::Loading(batch), polls.drop_last()).1);
    }
}

/// From idle, after the host has entered the loading state once and has
/// polled any number of times with nothing yet, the poll that reports
/// completion takes the machine to loaded: it retains exactly the handles of
/// the batch, and the switch to the ready state has been requested exactly
/// once, by that last step.
pub proof fn lemma_completion_retains_and_switches_once<H>(
    batch: BatchModel<H>,
    polls: Seq<EventModel<H>>,
    contents: Option<Seq<H>>,
)
    requires
        forall|i: int| 0 <= i < polls.len() ==> reports(#[trigger] polls[i], PollOutcome::Pending),
        batch is Folder ==> contents is Some,
    ensures
        ({
            let events = (seq![EventModel::Entered(batch)] + polls).push(
                EventModel::Polled(PollOutcome::Done, contents),
            );
            let (reached, actions) = run(StateModel::<H>::Idle, events);
            &&& reached == StateModel::Loaded(retained_of(batch, contents))
            &&& switch_requests(actions) == 1
            &&& actions.last() == Action::SwitchState
            &&& switch_requests(actions.drop_last()) == 0
        }),
{
    let entered = seq![EventModel::Entered(batch)];
    let done = EventModel::Polled(PollOutcome::Done, contents);
    let events = (entered + polls).push(done);
    assert(run(StateModel::<H>::Idle, entered).0 == StateModel::Loading(batch)) by {
        assert(entered =~= Seq::<EventModel<H>>::empty().push(EventModel::Entered(batch)));
        lemma_run_step(StateModel::<H>::Idle, Seq::empty(), EventModel::Entered(batch));
    }
    lemma_run_concat(StateModel::<H>::Idle, entered, polls);
    lemma_pending_polls_wait(batch, polls);
    lemma_run_step(StateModel::<H>::Idle, entered + polls, done);
    lemma_switch_requested_iff_loaded(events);
    lemma_switch_requested_iff_loaded(entered + polls);
    let actions = run(StateModel::<H>::Idle, events).1;
    assert(actions.drop_last() =~= run(StateModel::<H>::Idle, entered + polls).1);
}

/// Once a poll reports a failure to a machine that is loading, the machine
/// has failed, that step asks for the abort, and the switch to the ready
/// state is never requested: not before the failure and not after it,
/// whatever follows.
pub proof fn lemma_failure_aborts_and_never_switches<H>(events: Seq<EventModel<H>>, at: int)
    requires
        0 <= at < events.len(),
        run(StateModel::<H>::Idle, events.take(at)).0 is Loading,
        reports(events[at], PollOutcome::Failed),
    ensures
        run(StateModel::<H>::Idle, events).0 is Failed,
        run(StateModel::<H>::Idle, events).1[at] == Action::Abort(Fault::LoadFailed),
        switch_requests(run(StateModel::<H>::Idle, events).1) == 0,
        forall|i: int|
            0 <= i < events.len() ==> run(StateModel::<H>::Idle, events).1[i]
                != Action::SwitchState,
{
    let idle = StateModel::<H>::Idle;
    let head = events.take(at + 1);
    let rest = events.skip(at + 1);
    assert(head =~= events.take(at).push(events[at]));
    assert(head + rest =~= events);
    lemma_run_step(idle, events.take(at), events[at]);
    lemma_run_concat(idle, head, rest);
    lemma_terminal_states_stay(run(idle, head).0, rest);
    lemma_switch_requested_iff_loaded(events);
    lemma_switch_requested_iff_loaded(events.take(at));
    lemma_switch_requested_iff_loaded(head);
    let actions = run(idle, events).1;
    assert(actions[at] == run(idle, head).1[at]);
    assert forall|i: int| 0 <= i < events.len() implies actions[i] != Action::SwitchState by {
        if actions[i] == Action::SwitchState {
            lemma_switch_request_counts(actions, i);
        }
    }
}

/// A request for the switch among the actions counts.
proof fn lemma_switch_request_counts(actions: Seq<Action>, at: int)
    requires
        0 <= at < actions.len(),
        actions[at] == Action::SwitchState,
    ensures
        switch_requests(actions) >= 1,
    decreases actions.len(),
{
    if at < actions.len() - 1 {
        lemma_switch_request_counts(actions.drop_last(), at);
    }
}


} // verus!
