use bevy_officespace::loader::{AssetLoadError, AssetLoader, LoadState, LoaderPlugin};
use bevy_officespace::states::{
    finished_game_loading_system, finished_init_system, finished_loaded_system,
    finished_loading_system, GameState,
};

#[test]
fn game_states_advance_in_order() {
    let mut s = GameState::default();
    assert_eq!(s, GameState::Init);
    finished_init_system(&mut s);
    assert_eq!(s, GameState::AssetsLoading);
    finished_loading_system(&Ok(false), &mut s);
    assert_eq!(s, GameState::AssetsLoading);
    finished_loading_system(&Err(AssetLoadError { failed: vec![1] }), &mut s);
    assert_eq!(s, GameState::AssetsLoading);
    finished_loading_system(&Ok(true), &mut s);
    assert_eq!(s, GameState::AssetsLoaded);
    finished_loaded_system(&mut s);
    assert_eq!(s, GameState::GameLoading);
    assert!(!s.is_running());
    finished_game_loading_system(&mut s);
    assert_eq!(s, GameState::GameRunning);
    assert!(s.is_running());
}

#[test]
fn transitions_apply_only_in_their_state() {
    let mut s = GameState::GameRunning;
    finished_init_system(&mut s);
    finished_loading_system(&Ok(true), &mut s);
    finished_loaded_system(&mut s);
    finished_game_loading_system(&mut s);
    assert_eq!(s, GameState::GameRunning);
}

#[test]
fn loader_drops_loaded_and_reports_failed() {
    let mut loader = AssetLoader::new();
    assert!(loader.is_finished());
    loader.add_pending(1);
    loader.add_pending(2);
    loader.add_pending(3);
    loader.add_pending(2);
    assert!(!loader.is_finished());
    let statuses = vec![(1, LoadState::Loaded), (2, LoadState::Loading), (3, LoadState::Failed)];
    assert_eq!(loader.update_loading_state(&statuses), Err(AssetLoadError { failed: vec![3] }));
    assert!(!loader.is_finished());
    assert_eq!(loader.update_loading_state(&vec![(2, LoadState::NotLoaded)]), Ok(()));
    assert!(!loader.is_finished());
    assert_eq!(loader.update_loading_state(&vec![]), Ok(()));
    assert_eq!(loader.update_loading_state(&vec![(2, LoadState::Loaded)]), Ok(()));
    assert!(loader.is_finished());
}

#[test]
fn loader_plugin_runs_through_the_loading_states() {
    let mut plugin = LoaderPlugin::new();
    assert_eq!(plugin.state(), GameState::Init);
    assert_eq!(plugin.update(&vec![(1, LoadState::Loaded)]), Ok(()));
    assert_eq!(plugin.state(), GameState::Init);
    plugin.startup(&vec![7, 8]);
    assert_eq!(plugin.state(), GameState::AssetsLoading);
    assert_eq!(plugin.update(&vec![(7, LoadState::Loaded)]), Ok(()));
    assert_eq!(plugin.state(), GameState::AssetsLoading);
    assert_eq!(
        plugin.update(&vec![(8, LoadState::Failed)]),
        Err(AssetLoadError { failed: vec![8] })
    );
    assert_eq!(plugin.state(), GameState::AssetsLoading);
    let mut plugin = LoaderPlugin::new();
    plugin.startup(&vec![7, 8]);
    assert_eq!(plugin.update(&vec![(8, LoadState::Loaded), (7, LoadState::Loaded)]), Ok(()));
    assert_eq!(plugin.state(), GameState::AssetsLoaded);
    plugin.finish_loaded();
    assert_eq!(plugin.state(), GameState::GameLoading);
    assert!(!plugin.is_running());
    plugin.finish_game_loading();
    assert!(plugin.is_running());
}
