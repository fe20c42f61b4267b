//! What the asset subsystem reports about a load, and what a poll makes of it.

use vstd::prelude::*;

verus! {

/// The state of one load, or of an aggregate load, as the asset subsystem
/// reports it.
#[derive(Clone, Copy, Debug, PartialEq, Eq, Structural)]
pub enum LoadStatus {
    /// The load has not started yet.
    NotLoaded,
    /// The load is in progress.
    Loading,
    /// The load has completed.
    Loaded,
    /// The load has failed.
    Failed,
}

/// What one poll of a batch of loads comes to.
#[derive(Clone, Copy, Debug, PartialEq, Eq, Structural)]
pub enum PollOutcome {
    /// Some load is still outstanding and none has failed.
    Pending,
    /// Every load has completed.
    Done,
    /// Some load has failed.
    Failed,
}

/// The outcome of a poll of one aggregate load that reports `status`.
pub open spec fn aggregate_outcome_of(status: LoadStatus) -> PollOutcome {
    match status {
        LoadStatus::Failed => PollOutcome::Failed,
        LoadStatus::Loaded => PollOutcome::Done,
        _ => PollOutcome::Pending,
    }
}

/// The outcome of a poll of a batch whose loads report `statuses`: a failure
/// if any load has failed, completion if every load has completed (as it has
/// in an empty batch), and otherwise nothing yet.
pub open spec fn batch_outcome_of(statuses: Seq<LoadStatus>) -> PollOutcome {
    if exists|i: int| 0 <= i < statuses.len() && statuses[i] == LoadStatus::Failed {
        PollOutcome::Failed
    } else if forall|i: int| 0 <= i < statuses.len() ==> statuses[i] == LoadStatus::Loaded {
        PollOutcome::Done
    } else {
        PollOutcome::Pending
    }
}

/// Classifies the status of an aggregate load.
pub fn aggregate_outcome(status: LoadStatus) -> (outcome: PollOutcome)
    ensures
        outcome == aggregate_outcome_of(status),
{
    match status {
        LoadStatus::Failed => PollOutcome::Failed,
        LoadStatus::Loaded => PollOutcome::Done,
        _ => PollOutcome::Pending,
    }
}

/// Classifies the statuses of the loads of a batch. Every status is looked
/// at: a failure counts wherever it stands.
pub fn batch_outcome(statuses: &Vec<LoadStatus>) -> (outcome: PollOutcome)
    ensures
        outcome == batch_outcome_of(statuses@),
{
    let mut all_loaded = true;
    let mut i: usize = 0;
    while i < statuses.len()
        invariant
            i <= statuses.len(),
            forall|j: int| 0 <= j < i ==> statuses@[j] != LoadStatus::Failed,
            all_loaded <==> forall|j: int| 0 <= j < i ==> statuses@[j] == LoadStatus::Loaded,
        decreases statuses.len() - i,
    {
        match statuses[i] {
            LoadStatus::Failed => {
                return PollOutcome::Failed;
            },
            LoadStatus::Loaded => {},
            _ => {
                all_loaded = false;
            },
        }
        i += 1;
    }
    if all_loaded {
        PollOutcome::Done
    } else {
        PollOutcome::Pending
    }
}

} // verus!
