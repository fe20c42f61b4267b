//! The configuration of the preloader: the two states of the host that it
//! works between.

use vstd::prelude::*;

verus! {

/// Starts loading every asset of the asset folder when the host enters one
/// state, and asks for the switch to another when everything is loaded.
#[derive(Debug)]
pub struct AssetPreloadPlugin<LoadingState, NextState> {
    /// The state in which the assets are loaded.
    loading_state: LoadingState,
    /// The state to switch to when all assets are loaded.
    next_state: NextState,
}

impl<LoadingState, NextState> AssetPreloadPlugin<LoadingState, NextState> {
    /// The state in which the assets are loaded.
    pub closed spec fn loading(&self) -> LoadingState {
        self.loading_state
    }

    /// The state to switch to when all assets are loaded.
    pub closed spec fn ready(&self) -> NextState {
        self.next_state
    }

    /// A preloader that loads in `loading_state` and then asks for the switch
    /// to `next_state`.
    pub fn new(loading_state: LoadingState, next_state: NextState) -> (plugin: Self)
        ensures
            plugin.loading() == loading_state,
            plugin.ready() == next_state,
    {
        Self { loading_state, next_state }
    }

    /// The state in which the assets are loaded.
    pub fn loading_state(&self) -> (state: &LoadingState)
        ensures
            *state == self.loading(),
    {
        &self.loading_state
    }

    /// The state to switch to when all assets are loaded.
    pub fn next_state(&self) -> (state: &NextState)
        ensures
            *state == self.ready(),
    {
        &self.next_state
    }
}

} // verus!
