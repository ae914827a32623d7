use bevy_officespace::animation::{PapermanAnimationFinishedEvent, PapermanAnimationState};
use bevy_officespace::controller::{
    DirectionInput, Options, Paperman, PapermanControllerState, PapermanDirection,
};
use bevy_officespace::geometry::{Point3, COORD_LIMIT};
use bevy_officespace::navmesh::{MeshGeometry, NavMesh};
use bevy_officespace::player::{PlayerPlugin, PlayerSetupError};

fn plugin() -> PlayerPlugin {
    let mesh = MeshGeometry {
        positions: Some(vec![
            Point3::new(0, 0, 0),
            Point3::new(1000, 0, 0),
            Point3::new(1000, 0, 1000),
            Point3::new(0, 0, 1000),
        ]),
        indices: Some(vec![0, 1, 2, 0, 2, 3]),
    };
    PlayerPlugin::new(NavMesh::from_mesh(&mesh, 3).unwrap(), Options { speed: 1000 })
}

#[test]
fn start_off_the_mesh_is_refused() {
    let mut plugin = plugin();
    assert_eq!(
        plugin.setup_player(Point3::new(5000, 0, 5000), PapermanDirection::Right),
        Err(PlayerSetupError::StartOffNavMesh)
    );
    assert_eq!(
        plugin.setup_player(Point3::new(COORD_LIMIT + 1, 0, 0), PapermanDirection::Right),
        Err(PlayerSetupError::StartOutOfRange)
    );
    assert_eq!(plugin.len(), 0);
}

#[test]
fn characters_are_simulated_independently() {
    let mut plugin = plugin();
    let a = plugin.setup_player(Point3::new(100, 0, 500), PapermanDirection::Right).unwrap();
    let b = plugin.setup_player(Point3::new(900, 0, 500), PapermanDirection::Left).unwrap();
    assert_eq!((a.index(), b.index()), (0, 1));
    let right = DirectionInput { left: false, right: true };
    let none: Vec<PapermanAnimationFinishedEvent> = vec![];
    plugin.update(a, true, &right, &none, 100);
    let moved = plugin.player(a).unwrap();
    assert_eq!(moved.state, PapermanControllerState::Running(PapermanDirection::Right));
    assert_eq!(moved.animation_state, PapermanAnimationState::Walking);
    assert_eq!(moved.position.0, Point3::new(200, 0, 500));
    assert_eq!(plugin.player(b).unwrap(), Paperman::new(Point3::new(900, 0, 500), PapermanDirection::Left));
    plugin.update(b, false, &right, &none, 100);
    assert_eq!(plugin.player(b).unwrap(), Paperman::new(Point3::new(900, 0, 500), PapermanDirection::Left));
    for _ in 0..20 {
        plugin.update(a, true, &right, &none, 100);
    }
    let edge = plugin.player(a).unwrap();
    assert_eq!(edge.position.0, Point3::new(1000, 0, 500));
    assert!(plugin.navmesh().contains_point(edge.position.0));
}
