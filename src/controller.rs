use vstd::prelude::*;

use crate::animation::{PapermanAnimationFinishedEvent, PapermanAnimationState};
use crate::geometry::{Point3, COORD_LIMIT};
use crate::navmesh::NavMesh;

verus! {

/// The way a character faces or moves: left or right.
#[derive(Clone, Copy, Debug, PartialEq, Eq, Hash, Structural)]
pub enum PapermanDirection {
    Left,
    Right,
}

impl Default for PapermanDirection {
    fn default() -> (r: PapermanDirection)
        ensures
            r == PapermanDirection::Right,
    {
        PapermanDirection::Right
    }
}

/// The sine of a yaw angle that is a whole number of right angles.
pub open spec fn right_angle_sine(degrees: int) -> int {
    if degrees == 90 {
        1
    } else if degrees == 270 {
        -1
    } else {
        0
    }
}

impl PapermanDirection {
    pub open spec fn spec_forward(self) -> Point3 {
        match self {
            PapermanDirection::Left => Point3 { x: -1i32, y: 0i32, z: 0i32 },
            PapermanDirection::Right => Point3 { x: 1i32, y: 0i32, z: 0i32 },
        }
    }

    pub open spec fn spec_yaw_degrees(self) -> int {
        match self {
            PapermanDirection::Left => 270,
            PapermanDirection::Right => 90,
        }
    }

    /// The unit vector a character facing this way walks along: right is +X,
    /// left is -X.
    pub fn forward(&self) -> (r: Point3)
        ensures
            r == self.spec_forward(),
            r.y == 0 && r.z == 0,
            r.x == right_angle_sine(self.spec_yaw_degrees()),
    {
        match self {
            PapermanDirection::Left => Point3 { x: -1, y: 0, z: 0 },
            PapermanDirection::Right => Point3 { x: 1, y: 0, z: 0 },
        }
    }

    /// The rotation of the character's model about the vertical axis, in degrees.
    /// A model that faces +Z turned by this yaw faces along `forward`.
    pub fn yaw_degrees(&self) -> (r: u32)
        ensures
            r == self.spec_yaw_degrees(),
    {
        match self {
            PapermanDirection::Left => 270,
            PapermanDirection::Right => 90,
        }
    }
}

/// Facing and walking use one sign convention: the forward vector of each
/// direction is the sine of its model yaw along X, and the two directions walk
/// opposite ways.
pub proof fn lemma_forward_matches_yaw(d: PapermanDirection)
    ensures
        d.spec_forward().x == right_angle_sine(d.spec_yaw_degrees()),
        PapermanDirection::Left.spec_forward().x == -PapermanDirection::Right.spec_forward().x,
{
}

/// Which directional keys are held this tick.
#[derive(Clone, Copy, Debug, PartialEq, Eq, Structural)]
pub struct DirectionInput {
    pub left: bool,
    pub right: bool,
}

pub open spec fn spec_movement_direction(input: DirectionInput) -> Option<PapermanDirection> {
    if input.left {
        Some(PapermanDirection::Left)
    } else if input.right {
        Some(PapermanDirection::Right)
    } else {
        None
    }
}

/// The direction of movement for the keys held; left wins when both are.
pub fn movement_direction(input: &DirectionInput) -> (r: Option<PapermanDirection>)
    ensures
        r == spec_movement_direction(*input),
{
    if input.left {
        Some(PapermanDirection::Left)
    } else if input.right {
        Some(PapermanDirection::Right)
    } else {
        None
    }
}

/// The motion state of a character.
#[derive(Clone, Copy, Debug, PartialEq, Eq, Structural)]
pub enum PapermanControllerState {
    Idle,
    Turning(PapermanDirection),
    Running(PapermanDirection),
}

impl Default for PapermanControllerState {
    fn default() -> (r: PapermanControllerState)
        ensures
            r == PapermanControllerState::Idle,
    {
        PapermanControllerState::Idle
    }
}

/// The transition table of the controller, for the current state, the facing
/// and the direction held (if any). While turning, input is ignored: the turn
/// ends only when its animation finishes.
pub open spec fn next_state(
    state: PapermanControllerState,
    facing: PapermanDirection,
    input: Option<PapermanDirection>,
) -> PapermanControllerState {
    match state {
        PapermanControllerState::Idle => match input {
            None => PapermanControllerState::Idle,
            Some(d) => if d == facing {
                PapermanControllerState::Running(d)
            } else {
                PapermanControllerState::Turning(d)
            },
        },
        PapermanControllerState::Running(d) => match input {
            None => PapermanControllerState::Idle,
            Some(e) => if e == d {
                PapermanControllerState::Running(d)
            } else {
                PapermanControllerState::Turning(e)
            },
        },
        PapermanControllerState::Turning(d) => PapermanControllerState::Turning(d),
    }
}

/// The next controller state for the current state, facing and input.
pub fn advance(
    state: PapermanControllerState,
    facing: PapermanDirection,
    input: Option<PapermanDirection>,
) -> (r: PapermanControllerState)
    ensures
        r == next_state(state, facing, input),
{
    match state {
        PapermanControllerState::Idle => match input {
            None => PapermanControllerState::Idle,
            Some(d) => if d == facing {
                PapermanControllerState::Running(d)
            } else {
                PapermanControllerState::Turning(d)
            },
        },
        PapermanControllerState::Running(d) => match input {
            None => PapermanControllerState::Idle,
            Some(e) => if e == d {
                PapermanControllerState::Running(d)
            } else {
                PapermanControllerState::Turning(e)
            },
        },
        PapermanControllerState::Turning(d) => PapermanControllerState::Turning(d),
    }
}

pub open spec fn animation_for(state: PapermanControllerState) -> PapermanAnimationState {
    match state {
        PapermanControllerState::Running(_) => PapermanAnimationState::Walking,
        PapermanControllerState::Turning(_) => PapermanAnimationState::Turning,
        PapermanControllerState::Idle => PapermanAnimationState::Idle,
    }
}

/// The animation for a controller state: running plays the walking clip,
/// turning the turn, idle the idle clip.
pub fn animation_state_for(state: &PapermanControllerState) -> (r: PapermanAnimationState)
    ensures
        r == animation_for(*state),
{
    match state {
        PapermanControllerState::Running(_) => PapermanAnimationState::Walking,
        PapermanControllerState::Turning(_) => PapermanAnimationState::Turning,
        PapermanControllerState::Idle => PapermanAnimationState::Idle,
    }
}

/// Movement settings: the walking speed, in grid units per second.
#[derive(Clone, Copy, Debug, PartialEq, Eq, Structural)]
pub struct Options {
    pub speed: u32,
}

/// A character's position.
#[derive(Clone, Copy, Debug, PartialEq, Eq, Structural)]
pub struct PapermanPosition(pub Point3);

/// A character's velocity, in grid units per second.
#[derive(Clone, Copy, Debug, PartialEq, Eq, Structural)]
pub struct PapermanVelocity {
    pub x: i64,
    pub y: i64,
    pub z: i64,
}

/// The distance walked in one step of `dt_ms` milliseconds, rounded down.
pub open spec fn step_length(speed: int, dt_ms: int) -> int {
    speed * dt_ms / 1000
}

/// Where a step of length `k` along `f` from `p` ends, as integers.
pub open spec fn step_target(p: Point3, f: Point3, k: int) -> (int, int, int) {
    (p.x + f.x * k, p.y + f.y * k, p.z + f.z * k)
}

pub open spec fn triple_in_range(t: (int, int, int)) -> bool {
    -COORD_LIMIT <= t.0 <= COORD_LIMIT && -COORD_LIMIT <= t.1 <= COORD_LIMIT && -COORD_LIMIT
        <= t.2 <= COORD_LIMIT
}

pub open spec fn triple_point(t: (int, int, int)) -> Point3 {
    Point3 { x: t.0 as i32, y: t.1 as i32, z: t.2 as i32 }
}

/// The velocity a controller state gives: `speed` along the forward vector while
/// running, zero otherwise.
pub open spec fn velocity_for(state: PapermanControllerState, speed: int) -> PapermanVelocity {
    match state {
        PapermanControllerState::Running(d) => PapermanVelocity {
            x: (d.spec_forward().x * speed) as i64,
            y: (d.spec_forward().y * speed) as i64,
            z: (d.spec_forward().z * speed) as i64,
        },
        _ => PapermanVelocity { x: 0, y: 0, z: 0 },
    }
}

/// The position after one movement step: a running character moves `step_length`
/// along its forward vector, unless the end point is out of range or off the
/// mesh, in which case it stays where it is.
pub open spec fn moved_position(
    position: Point3,
    state: PapermanControllerState,
    speed: int,
    dt_ms: int,
    navmesh: NavMesh,
) -> Point3 {
    match state {
        PapermanControllerState::Running(d) => {
            let t = step_target(position, d.spec_forward(), step_length(speed, dt_ms));
            if triple_in_range(t) && navmesh.holds(triple_point(t)) {
                triple_point(t)
            } else {
                position
            }
        },
        _ => position,
    }
}

/// An idle character at `position`, facing `direction`.
pub open spec fn standing(position: Point3, direction: PapermanDirection) -> Paperman {
    Paperman {
        position: PapermanPosition(position),
        direction,
        velocity: PapermanVelocity { x: 0, y: 0, z: 0 },
        state: PapermanControllerState::Idle,
        animation_state: PapermanAnimationState::Idle,
    }
}

/// The state of one character: the plain record of its components.
#[derive(Clone, Copy, Debug, PartialEq, Eq, Structural)]
pub struct Paperman {
    pub position: PapermanPosition,
    pub direction: PapermanDirection,
    pub velocity: PapermanVelocity,
    pub state: PapermanControllerState,
    pub animation_state: PapermanAnimationState,
}

impl Paperman {
    /// Running is always along the facing; turning is always toward the other
    /// way.
    pub open spec fn wf(self) -> bool {
        &&& self.state matches PapermanControllerState::Running(d) ==> d == self.direction
        &&& self.state matches PapermanControllerState::Turning(d) ==> d != self.direction
    }

    /// A character standing still at `position`, facing `direction`.
    pub fn new(position: Point3, direction: PapermanDirection) -> (r: Paperman)
        ensures
            r == standing(position, direction),
            r.wf(),
    {
        Paperman {
            position: PapermanPosition(position),
            direction,
            velocity: PapermanVelocity { x: 0, y: 0, z: 0 },
            state: PapermanControllerState::Idle,
            animation_state: PapermanAnimationState::Idle,
        }
    }
}

/// Updates the controller state from the keys held. The facing is left alone.
pub fn update_input_state_system(paperman: &mut Paperman, input: &DirectionInput)
    ensures
        *final(paperman) == (Paperman {
            state: next_state(old(paperman).state, old(paperman).direction, spec_movement_direction(*input)),
            ..*old(paperman)
        }),
        old(paperman).wf() ==> final(paperman).wf(),
{
    let direction = movement_direction(input);
    paperman.state = advance(paperman.state, paperman.direction, direction);
}

/// Derives the animation state from the controller state; returns whether it
/// changed.
pub fn update_animation_state_system(paperman: &mut Paperman) -> (r: bool)
    ensures
        *final(paperman) == (Paperman {
            animation_state: animation_for(old(paperman).state),
            ..*old(paperman)
        }),
        r == (old(paperman).animation_state != animation_for(old(paperman).state)),
{
    let next = animation_state_for(&paperman.state);
    if next != paperman.animation_state {
        paperman.animation_state = next;
        true
    } else {
        false
    }
}

/// Some event of `events` reports the end of the turning animation.
pub open spec fn turn_finished(events: Seq<PapermanAnimationFinishedEvent>) -> bool {
    exists|i: int| 0 <= i < events.len() && (#[trigger] events[i]).state == PapermanAnimationState::Turning
}

/// The state after the turning-finished events of a tick: a turning character
/// that hears the turn has finished now faces the way it turned and runs.
pub open spec fn after_turn_events(
    paperman: Paperman,
    events: Seq<PapermanAnimationFinishedEvent>,
) -> Paperman {
    match paperman.state {
        PapermanControllerState::Turning(d) => if turn_finished(events) {
            Paperman {
                direction: d,
                state: PapermanControllerState::Running(d),
                animation_state: PapermanAnimationState::Walking,
                ..paperman
            }
        } else {
            paperman
        },
        _ => paperman,
    }
}

/// Completes a turn when its animation has finished: the facing becomes the
/// turning direction and the character runs that way.
pub fn finished_turning_animation_system(
    paperman: &mut Paperman,
    events: &Vec<PapermanAnimationFinishedEvent>,
)
    ensures
        *final(paperman) == after_turn_events(*old(paperman), events@),
        old(paperman).wf() ==> final(paperman).wf(),
{
    let ghost start = *paperman;
    let mut i: usize = 0;
    while i < events.len()
        invariant
            i <= events@.len(),
            *paperman == after_turn_events(start, events@.take(i as int)),
        decreases events@.len() - i,
    {
        if events[i].state == PapermanAnimationState::Turning {
            if let PapermanControllerState::Turning(direction) = paperman.state {
                paperman.direction = direction;
                paperman.state = PapermanControllerState::Running(direction);
                paperman.animation_state = PapermanAnimationState::Walking;
            }
        }
        proof {
            let prefix = events@.take(i as int + 1);
            assert(prefix[i as int] == events@[i as int]);
            assert forall|j: int| 0 <= j < i implies prefix[j] == events@.take(i as int)[j] by {}
            if turn_finished(events@.take(i as int)) {
                let j = choose|j: int|
                    0 <= j < i && (#[trigger] events@.take(i as int)[j]).state
                        == PapermanAnimationState::Turning;
                assert(prefix[j] == events@.take(i as int)[j]);
            }
            if events@[i as int].state == PapermanAnimationState::Turning {
                assert(turn_finished(prefix));
            }
        }
        i += 1;
    }
    assert(events@.take(events@.len() as int) =~= events@);
}

/// Moves a running character one step of `dt_ms` milliseconds along its forward
/// vector, when the end point lies on the mesh; otherwise it stays put, so a
/// character never leaves the mesh. The velocity is set from the state.
pub fn movement_system(
    paperman: &mut Paperman,
    options: &Options,
    navmesh: &NavMesh,
    dt_ms: u32,
)
    ensures
        *final(paperman) == (Paperman {
            position: PapermanPosition(
                moved_position(
                    old(paperman).position.0,
                    old(paperman).state,
                    options.speed as int,
                    dt_ms as int,
                    *navmesh,
                ),
            ),
            velocity: velocity_for(old(paperman).state, options.speed as int),
            ..*old(paperman)
        }),
        final(paperman).position != old(paperman).position ==> navmesh.holds(
            final(paperman).position.0,
        ),
        old(paperman).wf() ==> final(paperman).wf(),
{
    let speed: i64 = options.speed as i64;
    match paperman.state {
        PapermanControllerState::Running(direction) => {
            let f = direction.forward();
            assert(f.x * speed == if f.x == 1 {
                speed as int
            } else {
                -speed
            }) by (nonlinear_arith)
                requires
                    f.x == 1 || f.x == -1,
            ;
            paperman.velocity = PapermanVelocity {
                x: f.x as i64 * speed,
                y: f.y as i64 * speed,
                z: f.z as i64 * speed,
            };
            let speed_wide: u64 = options.speed as u64;
            assert(speed_wide * (dt_ms as u64) <= 0xffff_ffff * 0xffff_ffff) by (nonlinear_arith)
                requires
                    0 <= speed_wide <= 0xffff_ffff,
                    0 <= dt_ms <= 0xffff_ffff,
            ;
            let k: i64 = (speed_wide * (dt_ms as u64) / 1000) as i64;
            let p = paperman.position.0;
            let tx: i64 = p.x as i64 + f.x as i64 * k;
            let ty: i64 = p.y as i64 + f.y as i64 * k;
            let tz: i64 = p.z as i64 + f.z as i64 * k;
            let limit: i64 = COORD_LIMIT as i64;
            if -limit <= tx && tx <= limit && -limit <= ty && ty <= limit && -limit <= tz && tz
                <= limit {
                let target = Point3 { x: tx as i32, y: ty as i32, z: tz as i32 };
                if navmesh.contains_point(target) {
                    paperman.position = PapermanPosition(target);
                }
            }
        },
        _ => {
            paperman.velocity = PapermanVelocity { x: 0, y: 0, z: 0 };
        },
    }
}

/// A character after one simulation tick: when the game is running, the
/// controller state follows the input, the animation state follows the
/// controller state, finished turns complete, and then the character moves.
pub open spec fn ticked(
    paperman: Paperman,
    running: bool,
    input: DirectionInput,
    events: Seq<PapermanAnimationFinishedEvent>,
    options: Options,
    navmesh: NavMesh,
    dt_ms: int,
) -> Paperman {
    if !running {
        paperman
    } else {
        let after_input = Paperman {
            state: next_state(paperman.state, paperman.direction, spec_movement_direction(input)),
            ..paperman
        };
        let after_animation = Paperman {
            animation_state: animation_for(after_input.state),
            ..after_input
        };
        let after_turn = after_turn_events(after_animation, events);
        Paperman {
            position: PapermanPosition(
                moved_position(
                    after_turn.position.0,
                    after_turn.state,
                    options.speed as int,
                    dt_ms,
                    navmesh,
                ),
            ),
            velocity: velocity_for(after_turn.state, options.speed as int),
            ..after_turn
        }
    }
}

/// One simulation tick of a character, in the order that keeps state and motion
/// in step: input, then the animation state, then finished turns, then movement.
/// Nothing happens unless the game is running.
pub fn tick(
    paperman: &mut Paperman,
    running: bool,
    input: &DirectionInput,
    events: &Vec<PapermanAnimationFinishedEvent>,
    options: &Options,
    navmesh: &NavMesh,
    dt_ms: u32,
)
    ensures
        *final(paperman) == ticked(*old(paperman), running, *input, events@, *options, *navmesh, dt_ms as int),
        old(paperman).wf() ==> final(paperman).wf(),
        final(paperman).position != old(paperman).position ==> navmesh.holds(
            final(paperman).position.0,
        ),
{
    if running {
        update_input_state_system(paperman, input);
        update_animation_state_system(paperman);
        finished_turning_animation_system(paperman, events);
        movement_system(paperman, options, navmesh, dt_ms);
    }
}

} // verus!
