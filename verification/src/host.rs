//! Polling the asset server of the host for the loads of a batch.

use vstd::prelude::*;
use bevy_asset::{AssetServer, LoadState, RecursiveDependencyLoadState, UntypedHandle};
use crate::preload::{
    Action, BatchModel, Event, LoadingAssetBatch, Preloader, StateModel, next,
};
use crate::status::{
    LoadStatus, PollOutcome, aggregate_outcome, aggregate_outcome_of, batch_outcome,
    batch_outcome_of,
};

verus! {

/// `bevy_asset::AssetServer`, the asset subsystem of the host. The library
/// hands it through to the two queries below and knows nothing of what it
/// holds.
#[verifier::external_type_specification]
#[verifier::external_body]
pub struct ExAssetServer(AssetServer);

/// `bevy_asset::UntypedHandle`, the handle of one load. The library stores
/// and hands on such handles and knows nothing of what they hold.
#[verifier::external_type_specification]
#[verifier::external_body]
pub struct ExUntypedHandle(UntypedHandle);

/// `outcome` can come of a poll of `batch`: it is what some status of the
/// folder comes to, or what some statuses of the handles, one for each, come
/// to.
pub open spec fn may_come_of<H>(outcome: PollOutcome, batch: BatchModel<H>) -> bool {
    match batch {
        BatchModel::Folder(_) => exists|status: LoadStatus|
            outcome == #[trigger] aggregate_outcome_of(status),
        BatchModel::Handles(handles) => exists|statuses: Seq<LoadStatus>|
            statuses.len() == handles.len() && outcome == #[trigger] batch_outcome_of(statuses),
    }
}

/// `AssetServer::load_state` for the asset of `handle`. What the server
/// reports depends on how far the host has come with the load, so nothing is
/// claimed of the status.
#[verifier::external_body]
fn handle_status(asset_server: &AssetServer, handle: &UntypedHandle) -> (status: LoadStatus) {
    match asset_server.load_state(handle) {
        LoadState::NotLoaded => LoadStatus::NotLoaded,
        LoadState::Loading => LoadStatus::Loading,
        LoadState::Loaded => LoadStatus::Loaded,
        LoadState::Failed => LoadStatus::Failed,
    }
}

/// `AssetServer::recursive_dependency_load_state` for the asset of `handle`:
/// for a folder, the state of the loads of everything in it. Nothing is
/// claimed of the status.
#[verifier::external_body]
fn folder_status(asset_server: &AssetServer, handle: &UntypedHandle) -> (status: LoadStatus) {
    match asset_server.recursive_dependency_load_state(handle) {
        RecursiveDependencyLoadState::NotLoaded => LoadStatus::NotLoaded,
        RecursiveDependencyLoadState::Loading => LoadStatus::Loading,
        RecursiveDependencyLoadState::Loaded => LoadStatus::Loaded,
        RecursiveDependencyLoadState::Failed => LoadStatus::Failed,
    }
}

/// Asks the asset server for the status of each handle, in order.
pub fn handle_statuses(asset_server: &AssetServer, handles: &Vec<UntypedHandle>) -> (statuses: Vec<
    LoadStatus,
>)
    ensures
        statuses@.len() == handles@.len(),
{
    let mut statuses: Vec<LoadStatus> = Vec::new();
    let mut i: usize = 0;
    while i < handles.len()
        invariant
            i <= handles.len(),
            statuses@.len() == i,
        decreases handles.len() - i,
    {
        statuses.push(handle_status(asset_server, &handles[i]));
        i += 1;
    }
    statuses
}

impl LoadingAssetBatch<UntypedHandle> {
    /// Polls the asset server for the loads of the batch: the aggregate
    /// status of a folder, or the status of every single handle. A batch
    /// without handles is complete.
    pub fn poll(&self, asset_server: &AssetServer) -> (outcome: PollOutcome)
        ensures
            may_come_of(outcome, self@),
            self@ matches BatchModel::Handles(handles) && handles.len() == 0 ==> outcome
                == PollOutcome::Done,
    {
        match self {
            LoadingAssetBatch::Folder(folder) => aggregate_outcome(
                folder_status(asset_server, folder),
            ),
            LoadingAssetBatch::Handles(handles) => {
                let statuses = handle_statuses(asset_server, handles);
                batch_outcome(&statuses)
            },
        }
    }
}

impl Preloader<UntypedHandle> {
    /// One tick of the host while it is in the loading state: polls the asset
    /// server for the batch that is outstanding and takes the step that the
    /// outcome asks for. `contents` holds the handles that a loaded folder
    /// brought, where the host holds them. A machine that is not loading is
    /// left as it is.
    pub fn tick(self, asset_server: &AssetServer, contents: Option<Vec<UntypedHandle>>) -> (after: (
        Self,
        Action,
    ))
        ensures
            self@ matches StateModel::Loading(batch) ==> exists|outcome: PollOutcome|
                may_come_of(outcome, batch) && (after.0@, after.1) == #[trigger] next(
                    self@,
                    Event::Polled(outcome, contents)@,
                ),
            !(self@ is Loading) ==> after.0@ == self@ && after.1 == Action::Nothing,
            self@ == StateModel::Loading(BatchModel::Handles(Seq::<UntypedHandle>::empty()))
                ==> after.0@ == StateModel::Loaded(Seq::<UntypedHandle>::empty()) && after.1
                == Action::SwitchState,
    {
        let outcome = match &self {
            Preloader::Loading(batch) => batch.poll(asset_server),
            _ => PollOutcome::Pending,
        };
        let ghost event = Event::Polled(outcome, contents)@;
        let after = self.step(Event::Polled(outcome, contents));
        assert((after.0@, after.1) == next(self@, event));
        after
    }
}

} // verus!
