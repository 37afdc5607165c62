//! The state of a game as a whole, and how a game begins.

use vstd::prelude::*;
use crate::border::GameLifecycleState;
use crate::capture::{GameState, ShipUsageDecision, ShipUsageImageMarker};
use crate::dialogue::Dialogue;
use crate::entity::{bullets_wf, fleet_wf, BulletBundle, Entities, PlayerMarker, Ship};
use crate::explosion::ExplosionBundle;
use crate::handles::tables_wf;
use crate::roles::roles_wf;
use crate::movement::DelayedPlayerLocation;
use crate::profile::ShipType;
use crate::score::PlayerScore;
use crate::shield::ShieldRenderBundle;
use crate::spacecraft::Spacecraft;
use crate::spawner::{CarryoverEnemyPoints, STARTING_POINTS};
use crate::units::Point;

verus! {

/// What is spawned for the player: the ship and the mark of the player.
#[derive(Clone, Copy, PartialEq, Eq, Structural, Debug)]
pub struct PlayerBundle {
    pub craft: Spacecraft,
    pub marker: PlayerMarker,
}

impl PlayerBundle {
    /// The ship that the bundle becomes under the handle `entity`: the
    /// player's ship, with no other mark.
    pub open spec fn spawned(self, entity: u64) -> Ship {
        Ship { player: Some(self.marker), ..Ship::bare(entity, self.craft) }
    }

    /// Creates the bundle of a player's ship of the given type at `pos`.
    pub fn create_ship(ship_type: ShipType, pos: Point) -> (bundle: Self)
        ensures
            bundle.craft == Spacecraft::launched(ship_type, pos),
    {
        PlayerBundle { craft: Spacecraft::from_template(ship_type, pos), marker: PlayerMarker }
    }

    /// Turns the bundle into a ship under the handle `entity`.
    pub fn into_ship(self, entity: u64) -> (ship: Ship)
        ensures
            ship == self.spawned(entity),
    {
        let mut ship = Ship::new(entity, self.craft);
        ship.player = Some(self.marker);
        ship
    }
}

/// Everything that the systems of a tick read and write. Each system takes
/// the parts it works on; nothing is shared behind their backs.
pub struct Simulation {
    pub ships: Vec<Ship>,
    pub bullets: Vec<BulletBundle>,
    pub shields: Vec<ShieldRenderBundle>,
    pub explosions: Vec<ExplosionBundle>,
    pub ids: Entities,
    pub score: PlayerScore,
    pub spawn_points: CarryoverEnemyPoints,
    pub dialogue: Dialogue,
    pub player_location: DelayedPlayerLocation,
    pub state: GameState,
    pub lifecycle: GameLifecycleState,
    /// The decision that the player has made and that is yet to be carried
    /// out.
    pub decision: Option<ShipUsageDecision>,
    /// The prompt for a decision, while it is shown.
    pub prompt: Option<ShipUsageImageMarker>,
}

impl Simulation {
    /// What every system keeps of the state that it is handed: ships and
    /// bullets within their limits, sound tables, the roles in order, and a
    /// well-formed record of the player's position.
    pub open spec fn wf(self) -> bool {
        &&& fleet_wf(self.ships@)
        &&& bullets_wf(self.bullets@)
        &&& tables_wf(self.ships@, self.bullets@, self.ids)
        &&& roles_wf(self.ships@)
        &&& self.player_location.wf()
    }
}

/// The ship that the player starts a game in.
pub const STARTING_SHIP: ShipType = ShipType::Ship2;

/// Sets a game up: the player's ship alone at the origin under the first
/// handle, no points scored, the starting threat budget, and regular play.
pub fn setup() -> (game: Simulation)
    ensures
        game.ships@ == seq![
            (PlayerBundle {
                craft: Spacecraft::launched(ShipType::Ship2, Point { x: 0, y: 0 }),
                marker: PlayerMarker,
            }).spawned(0),
        ],
        game.bullets@.len() == 0,
        game.shields@.len() == 0,
        game.explosions@.len() == 0,
        game.ids.next == 1,
        game.score == PlayerScore::initial(),
        game.spawn_points == CarryoverEnemyPoints(STARTING_POINTS),
        !game.dialogue.visible,
        game.player_location.buffered_locations@.len() == 0,
        game.player_location.current_location == (Point { x: 0, y: 0 }),
        game.state == GameState::Regular,
        game.lifecycle == GameLifecycleState::Game,
        game.decision is None,
        game.prompt is None,
        game.wf(),
{
    let mut ids = Entities::new();
    let player = PlayerBundle::create_ship(STARTING_SHIP, Point::origin());
    let mut ships: Vec<Ship> = Vec::new();
    ships.push(player.into_ship(ids.spawn()));
    let game = Simulation {
        ships,
        bullets: Vec::new(),
        shields: Vec::new(),
        explosions: Vec::new(),
        ids,
        score: PlayerScore::new(),
        spawn_points: CarryoverEnemyPoints(STARTING_POINTS),
        dialogue: Dialogue::init(),
        player_location: DelayedPlayerLocation::new(),
        state: GameState::Regular,
        lifecycle: GameLifecycleState::Game,
        decision: None,
        prompt: None,
    };
    assert(game.ships@ =~= seq![
        (PlayerBundle {
            craft: Spacecraft::launched(ShipType::Ship2, Point { x: 0, y: 0 }),
            marker: PlayerMarker,
        }).spawned(0),
    ]);
    game
}

} // verus!
