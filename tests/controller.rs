use bevy_officespace::animation::{PapermanAnimationFinishedEvent, PapermanAnimationState};
use bevy_officespace::controller::{
    advance, animation_state_for, finished_turning_animation_system, movement_direction,
    movement_system, tick, update_animation_state_system, update_input_state_system,
    DirectionInput, Options, Paperman, PapermanControllerState, PapermanDirection,
    PapermanPosition, PapermanVelocity,
};
use bevy_officespace::geometry::Point3;
use bevy_officespace::navmesh::{MeshGeometry, NavMesh};

use PapermanControllerState::{Idle, Running, Turning};
use PapermanDirection::{Left, Right};

const SCALE: f64 = 100000.0;
const UNIT_AREA: u64 = 10_000_000_000;

fn grid(x: f64, y: f64, z: f64) -> Point3 {
    Point3::new(
        (x * SCALE).round() as i32,
        (y * SCALE).round() as i32,
        (z * SCALE).round() as i32,
    )
}

const NONE: DirectionInput = DirectionInput { left: false, right: false };
const LEFT: DirectionInput = DirectionInput { left: true, right: false };
const RIGHT: DirectionInput = DirectionInput { left: false, right: true };

fn turn_finished() -> Vec<PapermanAnimationFinishedEvent> {
    vec![PapermanAnimationFinishedEvent { state: PapermanAnimationState::Turning }]
}

#[test]
fn left_key_wins_over_right() {
    assert_eq!(movement_direction(&NONE), None);
    assert_eq!(movement_direction(&LEFT), Some(Left));
    assert_eq!(movement_direction(&RIGHT), Some(Right));
    assert_eq!(movement_direction(&DirectionInput { left: true, right: true }), Some(Left));
}

#[test]
fn transition_table() {
    for facing in [Left, Right] {
        assert_eq!(advance(Idle, facing, None), Idle);
    }
    assert_eq!(advance(Idle, Right, Some(Right)), Running(Right));
    assert_eq!(advance(Idle, Left, Some(Left)), Running(Left));
    assert_eq!(advance(Idle, Right, Some(Left)), Turning(Left));
    assert_eq!(advance(Idle, Left, Some(Right)), Turning(Right));
    for d in [Left, Right] {
        for facing in [Left, Right] {
            assert_eq!(advance(Running(d), facing, None), Idle);
            assert_eq!(advance(Running(d), facing, Some(d)), Running(d));
            assert_eq!(advance(Turning(d), facing, None), Turning(d));
            assert_eq!(advance(Turning(d), facing, Some(Left)), Turning(d));
            assert_eq!(advance(Turning(d), facing, Some(Right)), Turning(d));
        }
    }
    assert_eq!(advance(Running(Left), Left, Some(Right)), Turning(Right));
    assert_eq!(advance(Running(Right), Right, Some(Left)), Turning(Left));
}

#[test]
fn turning_left_ignores_release() {
    let mut c = Paperman::new(Point3::new(0, 0, 0), Right);
    c.state = Turning(Left);
    update_input_state_system(&mut c, &NONE);
    assert_eq!(c.state, Turning(Left));
    assert_eq!(c.direction, Right);
}

#[test]
fn animation_follows_controller_state() {
    assert_eq!(animation_state_for(&Idle), PapermanAnimationState::Idle);
    assert_eq!(animation_state_for(&Turning(Left)), PapermanAnimationState::Turning);
    assert_eq!(animation_state_for(&Running(Right)), PapermanAnimationState::Walking);
    let mut c = Paperman::new(Point3::new(0, 0, 0), Right);
    c.state = Running(Right);
    assert!(update_animation_state_system(&mut c));
    assert_eq!(c.animation_state, PapermanAnimationState::Walking);
    assert!(!update_animation_state_system(&mut c));
}

#[test]
fn turn_completes_on_finished_event() {
    let mut c = Paperman::new(Point3::new(0, 0, 0), Left);
    c.state = Turning(Right);
    c.animation_state = PapermanAnimationState::Turning;
    finished_turning_animation_system(&mut c, &turn_finished());
    assert_eq!(c.state, Running(Right));
    assert_eq!(c.direction, Right);
    assert_eq!(c.animation_state, PapermanAnimationState::Walking);
}

#[test]
fn other_finished_events_do_not_complete_a_turn() {
    let mut c = Paperman::new(Point3::new(0, 0, 0), Left);
    c.state = Turning(Right);
    let events = vec![PapermanAnimationFinishedEvent { state: PapermanAnimationState::Idle }];
    finished_turning_animation_system(&mut c, &events);
    assert_eq!(c.state, Turning(Right));
    assert_eq!(c.direction, Left);
    // A finished turn while not turning changes nothing.
    let mut idle = Paperman::new(Point3::new(0, 0, 0), Left);
    finished_turning_animation_system(&mut idle, &turn_finished());
    assert_eq!(idle, Paperman::new(Point3::new(0, 0, 0), Left));
}

#[test]
fn forward_and_yaw_share_one_sign_convention() {
    assert_eq!(Right.forward(), Point3::new(1, 0, 0));
    assert_eq!(Left.forward(), Point3::new(-1, 0, 0));
    assert_eq!(Right.yaw_degrees(), 90);
    assert_eq!(Left.yaw_degrees(), 270);
    for d in [Left, Right] {
        let sine = (d.yaw_degrees() as f64).to_radians().sin().round() as i32;
        assert_eq!(d.forward().x, sine);
    }
}

fn square_navmesh() -> NavMesh {
    let mesh = MeshGeometry {
        positions: Some(vec![
            Point3::new(0, 0, 0),
            Point3::new(1000, 0, 0),
            Point3::new(1000, 0, 1000),
            Point3::new(0, 0, 1000),
        ]),
        indices: Some(vec![0, 1, 2, 0, 2, 3]),
    };
    NavMesh::from_mesh(&mesh, 3).unwrap()
}

#[test]
fn running_character_moves_along_forward() {
    let nav = square_navmesh();
    let mut c = Paperman::new(Point3::new(500, 0, 500), Right);
    c.state = Running(Right);
    movement_system(&mut c, &Options { speed: 200 }, &nav, 500);
    assert_eq!(c.position, PapermanPosition(Point3::new(600, 0, 500)));
    assert_eq!(c.velocity, PapermanVelocity { x: 200, y: 0, z: 0 });
    c.state = Idle;
    movement_system(&mut c, &Options { speed: 200 }, &nav, 500);
    assert_eq!(c.position, PapermanPosition(Point3::new(600, 0, 500)));
    assert_eq!(c.velocity, PapermanVelocity { x: 0, y: 0, z: 0 });
}

#[test]
fn move_off_the_mesh_is_rejected() {
    let nav = square_navmesh();
    let mut c = Paperman::new(Point3::new(950, 0, 500), Right);
    c.state = Running(Right);
    let before = c.position;
    movement_system(&mut c, &Options { speed: 1000 }, &nav, 100);
    assert_eq!(c.position, before);
    // A step far past the coordinate range is rejected too.
    movement_system(&mut c, &Options { speed: u32::MAX }, &nav, u32::MAX);
    assert_eq!(c.position, before);
}

#[test]
fn nothing_happens_unless_running() {
    let nav = square_navmesh();
    let mut c = Paperman::new(Point3::new(500, 0, 500), Right);
    tick(&mut c, false, &RIGHT, &turn_finished(), &Options { speed: 1000 }, &nav, 100);
    assert_eq!(c, Paperman::new(Point3::new(500, 0, 500), Right));
}

#[test]
fn walk_left_across_unit_triangle() {
    let mesh = MeshGeometry {
        positions: Some(vec![grid(0.0, 0.0, 0.0), grid(1.0, 0.0, 0.0), grid(0.0, 1.0, 0.0)]),
        indices: Some(vec![0, 1, 2]),
    };
    let nav = NavMesh::from_mesh(&mesh, UNIT_AREA).unwrap();
    let start = grid(0.25, 0.0, 0.25);
    assert!(nav.contains_point(start));
    let mut c = Paperman::new(start, Right);
    let options = Options { speed: 10000 };
    let none: Vec<PapermanAnimationFinishedEvent> = vec![];

    tick(&mut c, true, &LEFT, &none, &options, &nav, 1000);
    assert_eq!(c.state, Turning(Left));
    assert_eq!(c.animation_state, PapermanAnimationState::Turning);
    assert_eq!(c.position.0, start);

    tick(&mut c, true, &LEFT, &turn_finished(), &options, &nav, 1000);
    assert_eq!(c.direction, Left);
    assert_eq!(c.state, Running(Left));
    assert_eq!(c.position.0.x, start.x - 10000);

    let mut moved = 1;
    let mut held = 0;
    for _ in 0..200 {
        let before = c.position.0;
        tick(&mut c, true, &LEFT, &none, &options, &nav, 1000);
        let target = Point3::new(before.x - 10000, before.y, before.z);
        if nav.contains_point(target) {
            assert_eq!(held, 0, "moved again after being held");
            assert_eq!(c.position.0, target);
            moved += 1;
        } else {
            assert_eq!(c.position.0, before);
            held += 1;
        }
        assert!(nav.contains_point(c.position.0));
    }
    assert!(moved > 2);
    assert!(held > 0);
}
