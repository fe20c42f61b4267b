use asset_preload::preload::{Action, Event, Fault, LoadingAssetBatch, Preloader};
use asset_preload::status::{batch_outcome, LoadStatus, PollOutcome};

fn retained(machine: &Preloader<u32>) -> Option<Vec<u32>> {
    match machine {
        Preloader::Loaded(assets) => Some(assets.handles().clone()),
        _ => None,
    }
}

/// Runs the machine from idle over the events and counts the switch requests.
fn run(events: Vec<Event<u32>>) -> (Preloader<u32>, Vec<Action>) {
    let mut machine = Preloader::new();
    let mut actions = Vec::new();
    for event in events {
        let (next, action) = machine.step(event);
        machine = next;
        actions.push(action);
    }
    (machine, actions)
}

fn switches(actions: &[Action]) -> usize {
    actions.iter().filter(|a| **a == Action::SwitchState).count()
}

#[test]
fn machine_starts_idle() {
    assert_eq!(Preloader::<u32>::new(), Preloader::Idle);
}

#[test]
fn entering_starts_the_loading() {
    let (machine, action) = Preloader::new().step(Event::Entered(LoadingAssetBatch::Handles(vec![1u32, 2])));
    assert_eq!(machine, Preloader::Loading(LoadingAssetBatch::Handles(vec![1, 2])));
    assert_eq!(action, Action::Nothing);
}

#[test]
fn pending_poll_changes_nothing() {
    let machine = Preloader::Loading(LoadingAssetBatch::Handles(vec![1u32, 2]));
    let (machine, action) = machine.step(Event::Polled(PollOutcome::Pending, None));
    assert_eq!(machine, Preloader::Loading(LoadingAssetBatch::Handles(vec![1, 2])));
    assert_eq!(action, Action::Nothing);
    let (machine, action) = machine.step(Event::Polled(PollOutcome::Pending, Some(vec![9])));
    assert_eq!(machine, Preloader::Loading(LoadingAssetBatch::Handles(vec![1, 2])));
    assert_eq!(action, Action::Nothing);
}

#[test]
fn completion_retains_the_handles_of_the_batch() {
    let (machine, actions) = run(vec![
        Event::Entered(LoadingAssetBatch::Handles(vec![11, 22, 33])),
        Event::Polled(PollOutcome::Pending, None),
        Event::Polled(PollOutcome::Pending, None),
        Event::Polled(PollOutcome::Done, None),
    ]);
    assert_eq!(retained(&machine), Some(vec![11, 22, 33]));
    assert_eq!(
        actions,
        vec![Action::Nothing, Action::Nothing, Action::Nothing, Action::SwitchState]
    );
    assert_eq!(switches(&actions), 1);
}

#[test]
fn completion_of_a_folder_retains_what_it_brought() {
    let (machine, actions) = run(vec![
        Event::Entered(LoadingAssetBatch::Folder(7)),
        Event::Polled(PollOutcome::Pending, None),
        Event::Polled(PollOutcome::Done, Some(vec![70, 71])),
    ]);
    assert_eq!(retained(&machine), Some(vec![70, 71]));
    assert_eq!(actions, vec![Action::Nothing, Action::Nothing, Action::SwitchState]);
}

#[test]
fn handles_of_a_per_path_batch_are_retained_whatever_the_host_adds() {
    let machine = Preloader::Loading(LoadingAssetBatch::Handles(vec![1u32]));
    let (machine, action) = machine.step(Event::Polled(PollOutcome::Done, Some(vec![5, 6])));
    assert_eq!(retained(&machine), Some(vec![1]));
    assert_eq!(action, Action::SwitchState);
}

#[test]
fn switch_is_requested_once() {
    let (machine, actions) = run(vec![
        Event::Entered(LoadingAssetBatch::Handles(vec![1])),
        Event::Polled(PollOutcome::Done, None),
        Event::Polled(PollOutcome::Done, None),
        Event::Polled(PollOutcome::Failed, None),
        Event::Entered(LoadingAssetBatch::Handles(vec![2])),
        Event::Polled(PollOutcome::Done, None),
    ]);
    assert_eq!(retained(&machine), Some(vec![1]));
    assert_eq!(switches(&actions), 1);
    assert_eq!(actions[1], Action::SwitchState);
}

#[test]
fn empty_batch_goes_from_idle_to_loaded() {
    let no_statuses: Vec<LoadStatus> = vec![];
    let (machine, action) = Preloader::<u32>::new().step(Event::Entered(LoadingAssetBatch::Handles(vec![])));
    assert_eq!(machine, Preloader::Loading(LoadingAssetBatch::Handles(vec![])));
    assert_eq!(action, Action::Nothing);
    let (machine, action) = machine.step(Event::Polled(batch_outcome(&no_statuses), None));
    assert_eq!(retained(&machine), Some(vec![]));
    assert_eq!(action, Action::SwitchState);
}

#[test]
fn failure_aborts_and_never_switches() {
    let (machine, actions) = run(vec![
        Event::Entered(LoadingAssetBatch::Handles(vec![1, 2])),
        Event::Polled(PollOutcome::Pending, None),
        Event::Polled(PollOutcome::Failed, None),
        Event::Polled(PollOutcome::Done, None),
        Event::Entered(LoadingAssetBatch::Handles(vec![3])),
        Event::Polled(PollOutcome::Done, Some(vec![3])),
    ]);
    assert_eq!(machine, Preloader::Failed);
    assert_eq!(actions[2], Action::Abort(Fault::LoadFailed));
    assert_eq!(switches(&actions), 0);
    assert_eq!(retained(&machine), None);
}

#[test]
fn one_failed_load_of_two_aborts() {
    let statuses = vec![LoadStatus::Failed, LoadStatus::Loaded];
    let machine = Preloader::Loading(LoadingAssetBatch::Handles(vec![1u32, 2]));
    let (machine, action) = machine.step(Event::Polled(batch_outcome(&statuses), None));
    assert_eq!(machine, Preloader::Failed);
    assert_eq!(action, Action::Abort(Fault::LoadFailed));

    let statuses = vec![LoadStatus::Loaded, LoadStatus::Failed];
    let machine = Preloader::Loading(LoadingAssetBatch::Handles(vec![1u32, 2]));
    let (machine, action) = machine.step(Event::Polled(batch_outcome(&statuses), None));
    assert_eq!(machine, Preloader::Failed);
    assert_eq!(action, Action::Abort(Fault::LoadFailed));
}

#[test]
fn failed_folder_aborts() {
    let machine = Preloader::Loading(LoadingAssetBatch::Folder(7u32));
    let (machine, action) = machine.step(Event::Polled(PollOutcome::Failed, Some(vec![1])));
    assert_eq!(machine, Preloader::Failed);
    assert_eq!(action, Action::Abort(Fault::LoadFailed));
}

#[test]
fn loaded_folder_without_handles_aborts() {
    let machine = Preloader::Loading(LoadingAssetBatch::Folder(7u32));
    let (machine, action) = machine.step(Event::Polled(PollOutcome::Done, None));
    assert_eq!(machine, Preloader::Failed);
    assert_eq!(action, Action::Abort(Fault::FolderUnavailable));
}

#[test]
fn loaded_empty_folder_is_loaded() {
    let machine = Preloader::Loading(LoadingAssetBatch::Folder(7u32));
    let (machine, action) = machine.step(Event::Polled(PollOutcome::Done, Some(vec![])));
    assert_eq!(retained(&machine), Some(vec![]));
    assert_eq!(action, Action::SwitchState);
}

#[test]
fn polls_before_the_start_change_nothing() {
    for outcome in [PollOutcome::Pending, PollOutcome::Done, PollOutcome::Failed] {
        let (machine, action) = Preloader::<u32>::new().step(Event::Polled(outcome, Some(vec![1])));
        assert_eq!(machine, Preloader::Idle);
        assert_eq!(action, Action::Nothing);
    }
}

#[test]
fn loading_starts_once() {
    let machine = Preloader::Loading(LoadingAssetBatch::Handles(vec![1u32]));
    let (machine, action) = machine.step(Event::Entered(LoadingAssetBatch::Handles(vec![2])));
    assert_eq!(machine, Preloader::Loading(LoadingAssetBatch::Handles(vec![1])));
    assert_eq!(action, Action::Nothing);
}

#[test]
fn failed_machine_stays_failed() {
    for event in [
        Event::Entered(LoadingAssetBatch::Folder(1u32)),
        Event::Polled(PollOutcome::Done, Some(vec![1])),
        Event::Polled(PollOutcome::Pending, None),
    ] {
        let (machine, action) = Preloader::Failed.step(event);
        assert_eq!(machine, Preloader::Failed);
        assert_eq!(action, Action::Nothing);
    }
}
