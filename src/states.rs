use vstd::prelude::*;

use crate::loader::AssetLoadError;

verus! {

/// The phases of the application, in the order it passes through them.
#[derive(Clone, Copy, Debug, PartialEq, Eq, Hash, Structural)]
pub enum GameState {
    /// Schedule asset loading
    Init,
    /// Assets are loading
    AssetsLoading,
    /// All Assets are loaded
    AssetsLoaded,
    /// Game is initializing
    GameLoading,
    /// Game is running
    GameRunning,
}

impl Default for GameState {
    fn default() -> (r: GameState)
        ensures
            r == GameState::Init,
    {
        GameState::Init
    }
}

impl GameState {
    /// The per-tick systems of the game run only in this state.
    pub fn is_running(&self) -> (r: bool)
        ensures
            r == (*self == GameState::GameRunning),
    {
        *self == GameState::GameRunning
    }
}

/// Asset loading has been scheduled: `Init` moves on to `AssetsLoading`.
pub fn finished_init_system(state: &mut GameState)
    ensures
        *old(state) == GameState::Init ==> *final(state) == GameState::AssetsLoading,
        *old(state) != GameState::Init ==> *final(state) == *old(state),
{
    if *state == GameState::Init {
        *state = GameState::AssetsLoading;
    }
}

/// The outcome of one loading check: when every asset has loaded
/// (`Ok(true)`), `AssetsLoading` moves on to `AssetsLoaded`; while some are
/// pending, or after a failure, the state stays.
pub fn finished_loading_system(result: &Result<bool, AssetLoadError>, state: &mut GameState)
    ensures
        (*old(state) == GameState::AssetsLoading && result matches Ok(true)) ==> *final(state)
            == GameState::AssetsLoaded,
        !(*old(state) == GameState::AssetsLoading && result matches Ok(true)) ==> *final(state)
            == *old(state),
{
    if *state == GameState::AssetsLoading {
        if let Ok(true) = result {
            *state = GameState::AssetsLoaded;
        }
    }
}

/// The resources have been prepared from the loaded assets: `AssetsLoaded`
/// moves on to `GameLoading`.
pub fn finished_loaded_system(state: &mut GameState)
    ensures
        *old(state) == GameState::AssetsLoaded ==> *final(state) == GameState::GameLoading,
        *old(state) != GameState::AssetsLoaded ==> *final(state) == *old(state),
{
    if *state == GameState::AssetsLoaded {
        *state = GameState::GameLoading;
    }
}

/// The game world has been set up: `GameLoading` moves on to `GameRunning`.
pub fn finished_game_loading_system(state: &mut GameState)
    ensures
        *old(state) == GameState::GameLoading ==> *final(state) == GameState::GameRunning,
        *old(state) != GameState::GameLoading ==> *final(state) == *old(state),
{
    if *state == GameState::GameLoading {
        *state = GameState::GameRunning;
    }
}

} // verus!
