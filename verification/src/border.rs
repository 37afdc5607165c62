//! The border hazard and the clean-up of the dead and the distant.

use vstd::prelude::*;
use crate::capture::{ShipUsageDecision, LETHAL_DAMAGE};
use crate::collision::struck;
use crate::dialogue::Dialogue;
use crate::entity::{
    fleet_wf, get_single, is_single, BulletBundle, Entities, ExplosionMarker, Selector, Ship,
};
use crate::handles::{lemma_ships_changed_in_place, lemma_ships_culled, tables_wf};
use crate::roles::{lemma_roles_after_cull, lemma_roles_kept_in_place, roles_wf};
use crate::score::PlayerScore;
use crate::units::{at_least_apart, is_at_least_apart, Point, UNIT};

verus! {

/// Beyond this distance from the origin the player is warned, and beyond
/// this distance from the player a ship is culled. In micro-units.
pub const WARNING_RADIUS: i64 = 10 * UNIT;

/// Beyond this distance from the origin the border destroys the player's
/// ship. In micro-units.
pub const LETHAL_RADIUS: i64 = 15 * UNIT;

/// The stages of the game as a whole.
#[derive(Clone, Copy, PartialEq, Eq, Structural, Debug, Hash)]
pub enum GameLifecycleState {
    MainMenu,
    Tutorial,
    Game,
    EndScreen,
}

/// Whether `position` is at the warning radius or beyond.
pub open spec fn in_warning_zone(position: Point) -> bool {
    at_least_apart(position, Point { x: 0, y: 0 }, WARNING_RADIUS as int)
}

/// Whether `position` is at the lethal radius or beyond.
pub open spec fn in_lethal_zone(position: Point) -> bool {
    at_least_apart(position, Point { x: 0, y: 0 }, LETHAL_RADIUS as int)
}

impl Ship {
    /// The player's ship after the border has been enforced on it: in the
    /// lethal zone it takes the lethal damage, which nothing reduces, and is
    /// owed an explosion; anywhere else it is left alone.
    pub open spec fn bordered(self) -> Ship {
        if in_lethal_zone(self.craft.position) {
            Ship {
                craft: self.craft.hit(LETHAL_DAMAGE as int, false),
                explosion: Some(ExplosionMarker),
                ..self
            }
        } else {
            self
        }
    }

    /// Whether clean-up removes the ship, the player being at `player`. The
    /// player's own ship goes when it has no health left. A ship that awaits
    /// the player's decision stays. Any other ship goes when it has no health
    /// left or is at the warning radius or beyond from the player.
    pub open spec fn is_doomed(self, player: Point) -> bool {
        if self.player is Some {
            self.craft.health <= 0
        } else {
            self.pending is None && (self.craft.health <= 0 || at_least_apart(
                self.craft.position,
                player,
                WARNING_RADIUS as int,
            ))
        }
    }
}

/// Enforces the border on the player's ship. In the warning zone the
/// dialogue box shows the warning, and in the lethal zone the ship takes the
/// lethal damage as well; inside the border the dialogue box is dismissed.
/// Without exactly one player's ship nothing happens.
pub fn enforce_border(ships: &mut Vec<Ship>, dialogue: &mut Dialogue, score: &mut PlayerScore)
    requires
        forall|p: int|
            is_single(old(ships)@, Selector::Player, p) ==> {
                &&& (#[trigger] old(ships)[p]).craft.position.wf()
                &&& in_lethal_zone(old(ships)[p].craft.position) ==> old(ships)[p].craft.health
                    - LETHAL_DAMAGE >= i32::MIN
            },
    ensures
        final(ships).len() == old(ships).len(),
        *final(score) == *old(score),
        forall|p: int|
            is_single(old(ships)@, Selector::Player, p) ==> {
                &&& final(ships)@ == old(ships)@.update(p, old(ships)[p].bordered())
                &&& final(dialogue).visible == in_warning_zone(old(ships)[p].craft.position)
                &&& final(dialogue).contents@ == if in_warning_zone(old(ships)[p].craft.position) {
                    "Captain! If we go much further out, we'll explode."@
                } else {
                    old(dialogue).contents@
                }
            },
        (forall|p: int| !is_single(old(ships)@, Selector::Player, p)) ==> {
            &&& final(ships)@ == old(ships)@
            &&& final(dialogue).visible == old(dialogue).visible
            &&& final(dialogue).contents@ == old(dialogue).contents@
        },
        fleet_wf(old(ships)@) ==> fleet_wf(final(ships)@),
        roles_wf(old(ships)@) ==> roles_wf(final(ships)@),
        forall|bullets: Seq<BulletBundle>, ids: Entities| #[trigger]
            tables_wf(old(ships)@, bullets, ids) ==> tables_wf(final(ships)@, bullets, ids),
{
    let found = get_single(ships, Selector::Player);
    if let Some(p) = found {
        proof {
            assert forall|k: int| is_single(old(ships)@, Selector::Player, k) implies k == p by {
                assert(old(ships)@[p as int].selected_by(Selector::Player));
            }
        }
        let origin = Point::origin();
        let position = ships[p].craft.position;
        if is_at_least_apart(&position, &origin, WARNING_RADIUS) {
            if is_at_least_apart(&position, &origin, LETHAL_RADIUS) {
                ships[p].explosion = Some(ExplosionMarker);
                ships[p].craft.collide(LETHAL_DAMAGE, false, score);
            }
            dialogue.set_text("Captain! If we go much further out, we'll explode.".to_string());
            dialogue.show();
            proof {
                lemma_lethal_zone_is_in_warning_zone(position);
            }
        } else {
            dialogue.dismiss();
            proof {
                lemma_lethal_zone_is_in_warning_zone(position);
            }
        }
        proof {
            lemma_ships_changed_in_place(old(ships)@, ships@);
            lemma_roles_kept_in_place(old(ships)@, ships@);
            assert(ships@ =~= old(ships)@.update(p as int, old(ships)[p as int].bordered()));
            if fleet_wf(old(ships)@) {
                assert forall|k: int| 0 <= k < ships@.len() implies (#[trigger] ships@[k]).wf() by {
                    assert(old(ships)@[k].wf());
                }
            }
        }
    }
}

/// The lethal zone lies within the warning zone.
pub proof fn lemma_lethal_zone_is_in_warning_zone(position: Point)
    ensures
        in_lethal_zone(position) ==> in_warning_zone(position),
{
    assert(LETHAL_RADIUS * LETHAL_RADIUS >= WARNING_RADIUS * WARNING_RADIUS) by (nonlinear_arith);
}

/// Border hazard: every tick on which the player's ship is in the lethal
/// zone costs it exactly the lethal damage, once, and a tick inside costs it
/// nothing; so two ticks in the zone cost twice the lethal damage.
pub proof fn lemma_border_damage_per_tick(ship: Ship)
    requires
        ship.craft.health - 2 * LETHAL_DAMAGE >= i32::MIN,
    ensures
        in_lethal_zone(ship.craft.position) ==> ship.bordered().craft.health == ship.craft.health
            - LETHAL_DAMAGE && ship.bordered().bordered().craft.health == ship.craft.health - 2
            * LETHAL_DAMAGE,
        !in_lethal_zone(ship.craft.position) ==> ship.bordered() == ship,
        ship.bordered().craft.position == ship.craft.position,
{
}

/// The ship table after clean-up with the player at `player`.
pub open spec fn survivors(ships: Seq<Ship>, player: Point) -> Seq<Ship> {
    ships.filter(|ship: Ship| !ship.is_doomed(player))
}

/// Clean-up: removes the dead and the distant, as [`Ship::is_doomed`] says,
/// and ends the game when the player's ship is among them. Without exactly
/// one player's ship nothing happens.
pub fn kill_dead_ships(ships: &mut Vec<Ship>, state: &mut GameLifecycleState)
    requires
        forall|i: int| 0 <= i < old(ships).len() ==> (#[trigger] old(ships)[i]).craft.position.wf(),
    ensures
        forall|p: int|
            is_single(old(ships)@, Selector::Player, p) ==> {
                &&& final(ships)@ == survivors(old(ships)@, old(ships)[p].craft.position)
                &&& *final(state) == if old(ships)[p].craft.health <= 0 {
                    GameLifecycleState::EndScreen
                } else {
                    *old(state)
                }
            },
        (forall|p: int| !is_single(old(ships)@, Selector::Player, p)) ==> final(ships)@ == old(
            ships,
        )@ && *final(state) == *old(state),
        fleet_wf(old(ships)@) ==> fleet_wf(final(ships)@),
        roles_wf(old(ships)@) ==> roles_wf(final(ships)@),
        forall|bullets: Seq<BulletBundle>, ids: Entities| #[trigger]
            tables_wf(old(ships)@, bullets, ids) ==> tables_wf(final(ships)@, bullets, ids),
{
    let found = get_single(ships, Selector::Player);
    if let Some(p) = found {
        proof {
            assert forall|k: int| is_single(old(ships)@, Selector::Player, k) implies k == p by {
                assert(old(ships)@[p as int].selected_by(Selector::Player));
            }
        }
        let player = ships[p].craft.position;
        proof {
            lemma_ships_culled(ships@, |ship: Ship| !ship.is_doomed(player));
            lemma_roles_after_cull(ships@, |ship: Ship| !ship.is_doomed(player));
        }
        let player_dead = ships[p].craft.health <= 0;
        let mut kept: Vec<Ship> = Vec::new();
        let mut i: usize = 0;
        while i < ships.len()
            invariant
                i <= ships.len(),
                ships@ == old(ships)@,
                player.wf(),
                forall|k: int| 0 <= k < ships.len() ==> (#[trigger] ships[k]).craft.position.wf(),
                kept@ == survivors(ships@.take(i as int), player),
                fleet_wf(old(ships)@) ==> fleet_wf(kept@),
            decreases ships.len() - i,
        {
            proof {
                let done = ships@.take(i as int);
                assert(ships@.take(i + 1) =~= done.push(ships@[i as int]));
                done.lemma_filter_push(ships@[i as int], |ship: Ship| !ship.is_doomed(player));
            }
            let ship = &ships[i];
            let doomed = if ship.player.is_some() {
                ship.craft.health <= 0
            } else {
                ship.pending.is_none() && (ship.craft.health <= 0 || is_at_least_apart(
                    &ship.craft.position,
                    &player,
                    WARNING_RADIUS,
                ))
            };
            if !doomed {
                kept.push(*ship);
            }
            i = i + 1;
        }
        proof {
            assert(ships@.take(ships@.len() as int) =~= ships@);
        }
        *ships = kept;
        if player_dead {
            *state = GameLifecycleState::EndScreen;
        }
    }
}

/// A ship without health is removed by clean-up wherever the player is,
/// unless it awaits the player's decision.
pub proof fn lemma_dead_ship_is_cleaned_up(ship: Ship, player: Point)
    requires
        ship.craft.health <= 0,
        ship.pending is None,
    ensures
        ship.is_doomed(player),
{
}

/// A ship of no more health than the lethal damage takes that the player has
/// decided to destroy loses exactly that damage and is removed by the next
/// clean-up, wherever the player is.
pub proof fn lemma_destroyed_ship_is_cleaned_up(ship: Ship, player: Point)
    requires
        ship.craft.health <= LETHAL_DAMAGE,
        ship.craft.health - LETHAL_DAMAGE >= i32::MIN,
    ensures
        ship.decided(ShipUsageDecision::Destroy).craft.health == ship.craft.health
            - LETHAL_DAMAGE,
        ship.decided(ShipUsageDecision::Destroy).is_doomed(player),
{
}

/// A hit by a shot of the player's that would have brought a ship to zero or
/// below does not destroy it: the ship is left with one point of health and
/// awaits the player's decision, and clean-up passes it by wherever the
/// player is.
pub proof fn lemma_spared_ship_is_passed_by(ship: Ship, player: Point)
    requires
        ship.craft.health - 1 <= 0,
    ensures
        struck(ship, true).craft.health == 1,
        struck(ship, true).pending is Some,
        !struck(ship, true).is_doomed(player),
{
}

} // verus!
