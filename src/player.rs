use vstd::prelude::*;

use crate::animation::PapermanAnimationFinishedEvent;
use crate::controller::{
    standing, tick, ticked, DirectionInput, Options, Paperman, PapermanDirection,
};
use crate::geometry::Point3;
use crate::navmesh::NavMesh;

verus! {

/// A stable handle to one character of a `PlayerPlugin`.
#[derive(Clone, Copy, Debug, PartialEq, Eq, Hash, Structural)]
pub struct Player(usize);

impl Player {
    pub closed spec fn spec_index(self) -> usize {
        self.0
    }

    pub fn index(&self) -> (r: usize)
        ensures
            r == self.spec_index(),
    {
        self.0
    }
}

/// Why a character cannot be placed at its start position.
#[derive(Clone, Copy, Debug, PartialEq, Eq, Structural)]
pub enum PlayerSetupError {
    /// The start position lies outside `COORD_LIMIT`.
    StartOutOfRange,
    /// The start position is not on the navigation mesh: the level is authored
    /// wrongly.
    StartOffNavMesh,
}

/// The characters of a level with the navigation mesh they walk on and their
/// movement options. Every character stands on the mesh, and runs only along its
/// facing.
pub struct PlayerPlugin {
    navmesh: NavMesh,
    options: Options,
    players: Vec<Paperman>,
}

impl PlayerPlugin {
    #[verifier::type_invariant]
    spec fn inv(self) -> bool {
        forall|i: int|
            0 <= i < self.players@.len() ==> (#[trigger] self.players@[i]).wf()
                && self.navmesh.holds(self.players@[i].position.0)
    }

    pub closed spec fn spec_navmesh(self) -> NavMesh {
        self.navmesh
    }

    pub closed spec fn spec_options(self) -> Options {
        self.options
    }

    /// The characters, indexed by their handles.
    pub closed spec fn spec_players(self) -> Seq<Paperman> {
        self.players@
    }

    pub fn new(navmesh: NavMesh, options: Options) -> (r: PlayerPlugin)
        ensures
            r.spec_navmesh() == navmesh,
            r.spec_options() == options,
            r.spec_players() == Seq::<Paperman>::empty(),
    {
        PlayerPlugin { navmesh, options, players: Vec::new() }
    }

    pub fn navmesh(&self) -> (r: &NavMesh)
        ensures
            *r == self.spec_navmesh(),
    {
        &self.navmesh
    }

    pub fn len(&self) -> (r: usize)
        ensures
            r == self.spec_players().len(),
    {
        self.players.len()
    }

    /// Places a new character, standing still, at `start`, facing `direction`.
    /// A start position off the mesh is refused.
    pub fn setup_player(&mut self, start: Point3, direction: PapermanDirection) -> (r: Result<
        Player,
        PlayerSetupError,
    >)
        ensures
            !start.in_range() ==> r matches Err(PlayerSetupError::StartOutOfRange),
            start.in_range() && !old(self).spec_navmesh().holds(start) ==> r matches Err(
                PlayerSetupError::StartOffNavMesh,
            ),
            r is Err ==> final(self).spec_players() == old(self).spec_players(),
            start.in_range() && old(self).spec_navmesh().holds(start) ==> r is Ok,
            r matches Ok(handle) ==> handle.spec_index() == old(self).spec_players().len()
                && final(self).spec_players() == old(self).spec_players().push(
                standing(start, direction),
            ),
            final(self).spec_navmesh() == old(self).spec_navmesh(),
            final(self).spec_options() == old(self).spec_options(),
    {
        if !start.is_in_range() {
            return Err(PlayerSetupError::StartOutOfRange);
        }
        if !self.navmesh.contains_point(start) {
            return Err(PlayerSetupError::StartOffNavMesh);
        }
        proof {
            use_type_invariant(&*self);
        }
        let handle = Player(self.players.len());
        let mut players = copy_players(&self.players);
        players.push(Paperman::new(start, direction));
        self.players = players;
        Ok(handle)
    }

    /// The character behind a handle, if there is one.
    pub fn player(&self, player: Player) -> (r: Option<Paperman>)
        ensures
            player.spec_index() < self.spec_players().len() ==> r == Some(
                self.spec_players()[player.spec_index() as int],
            ),
            player.spec_index() >= self.spec_players().len() ==> r is None,
    {
        if player.0 < self.players.len() {
            Some(self.players[player.0])
        } else {
            None
        }
    }

    /// Runs one tick for a character: input, animation state, finished turns and
    /// movement, in that order, and only while the game is running. The other
    /// characters are left alone, and so is everything for a handle of another
    /// table.
    pub fn update(
        &mut self,
        player: Player,
        running: bool,
        input: &DirectionInput,
        events: &Vec<PapermanAnimationFinishedEvent>,
        dt_ms: u32,
    )
        ensures
            final(self).spec_navmesh() == old(self).spec_navmesh(),
            final(self).spec_options() == old(self).spec_options(),
            final(self).spec_players().len() == old(self).spec_players().len(),
            forall|i: int|
                0 <= i < old(self).spec_players().len() && i != player.spec_index() ==> (#[trigger] final(self).spec_players()[i]) == old(self).spec_players()[i],
            player.spec_index() < old(self).spec_players().len() ==> final(self).spec_players()[player.spec_index() as int]
                == ticked(
                old(self).spec_players()[player.spec_index() as int],
                running,
                *input,
                events@,
                old(self).spec_options(),
                old(self).spec_navmesh(),
                dt_ms as int,
            ),
            !running ==> final(self).spec_players() == old(self).spec_players(),
    {
        proof {
            use_type_invariant(&*self);
        }
        if player.0 < self.players.len() {
            let mut paperman = self.players[player.0];
            tick(&mut paperman, running, input, events, &self.options, &self.navmesh, dt_ms);
            let mut players = copy_players(&self.players);
            players.set(player.0, paperman);
            proof {
                assert forall|i: int| 0 <= i < players@.len() implies (#[trigger] players@[i]).wf()
                    && self.navmesh.holds(players@[i].position.0) by {
                    if i != player.0 as int {
                        assert(players@[i] == self.players@[i]);
                    }
                }
                if !running {
                    assert(players@ =~= self.players@);
                }
            }
            self.players = players;
        }
    }
}

/// A copy of the character records.
fn copy_players(players: &Vec<Paperman>) -> (r: Vec<Paperman>)
    ensures
        r@ == players@,
{
    let mut r: Vec<Paperman> = Vec::new();
    let mut i: usize = 0;
    while i < players.len()
        invariant
            i <= players@.len(),
            r@ == players@.take(i as int),
        decreases players@.len() - i,
    {
        r.push(players[i]);
        assert(r@ =~= players@.take(i as int + 1));
        i += 1;
    }
    assert(r@ =~= players@);
    r
}

} // verus!
