//! The capture flow: pausing for a defeated ship, carrying out the player's
//! decision about it, and handing the controls over.

use vstd::prelude::*;
use crate::collision::pending_can_absorb;
use crate::entity::{
    at_most_one, fleet_wf, get_single, is_single, lemma_single_means_at_most_one, none_selected,
    BulletBundle, Captured, Entities, NPCLogic, PlayerMarker, Selector, Ship, SwapToShipMarker,
};
use crate::handles::{lemma_ships_changed_in_place, tables_wf};
use crate::roles::{lemma_kind_kept_in_place, roles_wf};
use crate::score::PlayerScore;
use crate::units::Point;

verus! {

/// The damage that destroys a ship outright.
pub const LETHAL_DAMAGE: i32 = 100;

/// The mode of play.
#[derive(Clone, Copy, PartialEq, Eq, Structural, Debug, Hash)]
pub enum GameState {
    /// The simulation runs.
    Regular,
    /// The simulation waits for the player's decision about a defeated ship.
    Paused,
}

/// What the player may do with a defeated ship.
#[derive(Clone, Copy, PartialEq, Eq, Structural, Debug)]
pub enum ShipUsageDecision {
    /// Take the ship over; the ship flown so far steers itself from now on.
    Transfer,
    /// Keep the ship as an ally.
    Keep,
    /// Destroy the ship.
    Destroy,
}

/// The prompt that asks the player for a decision.
#[derive(Clone, Copy, PartialEq, Eq, Structural, Debug)]
pub struct ShipUsageImageMarker;

impl Ship {
    /// A ship after the player has decided about it. The ship no longer
    /// awaits a decision, and is marked as the one to take over, marked as an
    /// ally, or dealt the lethal damage.
    pub open spec fn decided(self, decision: ShipUsageDecision) -> Ship {
        match decision {
            ShipUsageDecision::Transfer => Ship {
                swap_to: Some(SwapToShipMarker),
                pending: None,
                ..self
            },
            ShipUsageDecision::Keep => Ship { captured: Some(Captured), pending: None, ..self },
            ShipUsageDecision::Destroy => Ship {
                craft: self.craft.hit(LETHAL_DAMAGE as int, false),
                pending: None,
                ..self
            },
        }
    }

    /// A ship after the player has left it: it steers itself, with a true aim.
    pub open spec fn vacated(self) -> Ship {
        Ship { player: None, logic: Some(NPCLogic(Point { x: 0, y: 0 })), ..self }
    }

    /// A ship after the player has boarded it.
    pub open spec fn boarded(self) -> Ship {
        Ship { player: Some(PlayerMarker), logic: None, swap_to: None, ..self }
    }
}

/// Pauses the game when a ship awaits the player's decision: where the table
/// holds exactly one such ship, the mode becomes `Paused` and the prompt is
/// shown; otherwise nothing changes.
pub fn pause_for_captured_ship(
    ships: &Vec<Ship>,
    state: &mut GameState,
    prompt: &mut Option<ShipUsageImageMarker>,
)
    ensures
        (exists|i: int| is_single(ships@, Selector::Pending, i)) ==> *final(state)
            == GameState::Paused && *final(prompt) == Some(ShipUsageImageMarker),
        (forall|i: int| !is_single(ships@, Selector::Pending, i)) ==> *final(state) == *old(state)
            && *final(prompt) == *old(prompt),
{
    let found = get_single(ships, Selector::Pending);
    if found.is_some() {
        *state = GameState::Paused;
        *prompt = Some(ShipUsageImageMarker);
    }
}

/// Where at most one ship awaits the player's decision, as damage
/// resolution keeps it, a ship that does is the only one, so the game pauses
/// for it.
pub proof fn lemma_pending_ship_is_paused_for(ships: Seq<Ship>, i: int)
    requires
        at_most_one(ships, Selector::Pending),
        0 <= i < ships.len(),
        ships[i].pending is Some,
    ensures
        is_single(ships, Selector::Pending, i),
{
    lemma_single_means_at_most_one(ships, Selector::Pending, i);
}

/// Carries out the player's decision, if one has been made: every ship that
/// awaits it is dealt with as decided, the prompt goes, the decision is
/// spent and play resumes. Without a decision nothing changes.
pub fn check_for_usage_decision(
    decision: &mut Option<ShipUsageDecision>,
    ships: &mut Vec<Ship>,
    prompt: &mut Option<ShipUsageImageMarker>,
    state: &mut GameState,
    score: &mut PlayerScore,
)
    requires
        *old(decision) == Some(ShipUsageDecision::Destroy) ==> pending_can_absorb(
            old(ships)@,
            LETHAL_DAMAGE as int,
        ),
    ensures
        final(ships).len() == old(ships).len(),
        *old(decision) matches Some(made) ==> {
            &&& forall|i: int|
                0 <= i < old(ships).len() ==> (#[trigger] final(ships)[i]) == if old(
                    ships,
                )[i].pending is Some {
                    old(ships)[i].decided(made)
                } else {
                    old(ships)[i]
                }
            &&& none_selected(final(ships)@, Selector::Pending)
            &&& *final(prompt) is None
            &&& *final(state) == GameState::Regular
        },
        *old(decision) is None ==> final(ships)@ == old(ships)@ && *final(prompt) == *old(prompt)
            && *final(state) == *old(state),
        *final(decision) is None,
        *final(score) == *old(score),
        fleet_wf(old(ships)@) ==> fleet_wf(final(ships)@),
        roles_wf(old(ships)@) ==> roles_wf(final(ships)@),
        forall|bullets: Seq<BulletBundle>, ids: Entities| #[trigger]
            tables_wf(old(ships)@, bullets, ids) ==> tables_wf(final(ships)@, bullets, ids),
{
    let made = match *decision {
        Some(made) => made,
        None => {
            return ;
        },
    };
    let mut i: usize = 0;
    while i < ships.len()
        invariant
            i <= ships.len(),
            ships.len() == old(ships).len(),
            made == ShipUsageDecision::Destroy ==> pending_can_absorb(
                old(ships)@,
                LETHAL_DAMAGE as int,
            ),
            *score == *old(score),
            forall|k: int|
                0 <= k < i ==> (#[trigger] ships[k]) == if old(ships)[k].pending is Some {
                    old(ships)[k].decided(made)
                } else {
                    old(ships)[k]
                },
            forall|k: int| i <= k < ships.len() ==> (#[trigger] ships[k]) == old(ships)[k],
        decreases ships.len() - i,
    {
        if ships[i].pending.is_some() {
            ships[i].pending = None;
            match made {
                ShipUsageDecision::Transfer => {
                    ships[i].swap_to = Some(SwapToShipMarker);
                },
                ShipUsageDecision::Keep => {
                    ships[i].captured = Some(Captured);
                },
                ShipUsageDecision::Destroy => {
                    assert(old(ships)[i as int].craft.health - LETHAL_DAMAGE >= i32::MIN);
                    ships[i].craft.collide(LETHAL_DAMAGE, false, score);
                },
            }
        }
        i = i + 1;
    }
    *prompt = None;
    *decision = None;
    *state = GameState::Regular;
    proof {
        lemma_ships_changed_in_place(old(ships)@, ships@);
        if roles_wf(old(ships)@) {
            lemma_kind_kept_in_place(old(ships)@, ships@, Selector::Player);
            assert(none_selected(ships@, Selector::Pending));
        }
        if fleet_wf(old(ships)@) {
            assert forall|k: int| 0 <= k < ships@.len() implies (#[trigger] ships@[k]).wf() by {
                assert(old(ships)@[k].wf());
            }
        }
    }
}

/// Lets the ship that awaits the player's decision off without one: where
/// the table holds exactly one such ship it no longer awaits anything;
/// otherwise nothing changes.
pub fn remove_overly_long_tag(ships: &mut Vec<Ship>)
    ensures
        forall|i: int|
            is_single(old(ships)@, Selector::Pending, i) ==> final(ships)@ == old(ships)@.update(
                i,
                Ship { pending: None, ..old(ships)[i] },
            ),
        (forall|i: int| !is_single(old(ships)@, Selector::Pending, i)) ==> final(ships)@ == old(
            ships,
        )@,
        fleet_wf(old(ships)@) ==> fleet_wf(final(ships)@),
        roles_wf(old(ships)@) ==> roles_wf(final(ships)@),
        forall|bullets: Seq<BulletBundle>, ids: Entities| #[trigger]
            tables_wf(old(ships)@, bullets, ids) ==> tables_wf(final(ships)@, bullets, ids),
{
    if let Some(i) = get_single(ships, Selector::Pending) {
        proof {
            assert forall|k: int| is_single(old(ships)@, Selector::Pending, k) implies k == i by {
                assert(old(ships)@[i as int].selected_by(Selector::Pending));
            }
        }
        ships[i].pending = None;
        proof {
            assert(ships@ =~= old(ships)@.update(
                i as int,
                Ship { pending: None, ..old(ships)[i as int] },
            ));
            lemma_ships_changed_in_place(old(ships)@, ships@);
            if fleet_wf(old(ships)@) {
                assert forall|k: int| 0 <= k < ships@.len() implies (#[trigger] ships@[k]).wf() by {
                    assert(old(ships)@[k].wf());
                }
            }
            if roles_wf(old(ships)@) {
                lemma_kind_kept_in_place(old(ships)@, ships@, Selector::Player);
                assert forall|a: int, b: int|
                    0 <= a < ships@.len() && 0 <= b < ships@.len() && (
                    #[trigger] ships@[a]).selected_by(Selector::Pending) && (
                    #[trigger] ships@[b]).selected_by(Selector::Pending) implies a == b by {
                    assert(old(ships)@[a].selected_by(Selector::Pending));
                    assert(old(ships)@[b].selected_by(Selector::Pending));
                }
            }
        }
    }
}

/// Hands the controls over to the ship that is marked for it. Where the
/// table holds exactly one such ship and exactly one ship of the player's, the
/// player's ship is vacated, then the marked ship is boarded, and its index is
/// returned. Otherwise nothing changes.
pub fn swap_ships(ships: &mut Vec<Ship>) -> (boarded: Option<usize>)
    ensures
        final(ships).len() == old(ships).len(),
        forall|to: int, from: int|
            is_single(old(ships)@, Selector::SwapTarget, to) && is_single(
                old(ships)@,
                Selector::Player,
                from,
            ) ==> boarded == Some(to as usize) && final(ships)@ == old(ships)@.update(
                from,
                old(ships)[from].vacated(),
            ).update(to, old(ships)@.update(from, old(ships)[from].vacated())[to].boarded()),
        boarded is Some ==> is_single(old(ships)@, Selector::SwapTarget, boarded.unwrap() as int)
            && exists|from: int| is_single(old(ships)@, Selector::Player, from),
        boarded is None ==> final(ships)@ == old(ships)@,
        fleet_wf(old(ships)@) ==> fleet_wf(final(ships)@),
        roles_wf(old(ships)@) ==> roles_wf(final(ships)@),
        forall|bullets: Seq<BulletBundle>, ids: Entities| #[trigger]
            tables_wf(old(ships)@, bullets, ids) ==> tables_wf(final(ships)@, bullets, ids),
{
    let found_to = get_single(ships, Selector::SwapTarget);
    let found_from = get_single(ships, Selector::Player);
    match (found_to, found_from) {
        (Some(to), Some(from)) => {
            proof {
                assert forall|t: int, f: int|
                    is_single(old(ships)@, Selector::SwapTarget, t) && is_single(
                        old(ships)@,
                        Selector::Player,
                        f,
                    ) implies t == to && f == from by {
                    assert(old(ships)@[to as int].selected_by(Selector::SwapTarget));
                    assert(old(ships)@[from as int].selected_by(Selector::Player));
                }
            }
            ships[from].player = None;
            ships[from].logic = Some(NPCLogic(Point::origin()));
            ships[to].logic = None;
            ships[to].swap_to = None;
            ships[to].player = Some(PlayerMarker);
            proof {
                let vacated = old(ships)@.update(from as int, old(ships)[from as int].vacated());
                assert(ships@ =~= vacated.update(to as int, vacated[to as int].boarded()));
                lemma_ships_changed_in_place(old(ships)@, ships@);
                if fleet_wf(old(ships)@) {
                    assert forall|k: int| 0 <= k < ships@.len() implies (
                    #[trigger] ships@[k]).wf() by {
                        assert(old(ships)@[k].wf());
                    }
                }
                if roles_wf(old(ships)@) {
                    lemma_kind_kept_in_place(old(ships)@, ships@, Selector::Pending);
                    assert forall|a: int, b: int|
                        0 <= a < ships@.len() && 0 <= b < ships@.len() && (
                        #[trigger] ships@[a]).selected_by(Selector::Player) && (
                        #[trigger] ships@[b]).selected_by(Selector::Player) implies a == b by {
                        if a != to {
                            assert(old(ships)@[a].selected_by(Selector::Player));
                        }
                        if b != to {
                            assert(old(ships)@[b].selected_by(Selector::Player));
                        }
                    }
                }
            }
            Some(to)
        },
        _ => None,
    }
}

/// The Destroy decision: the ship that awaited it no longer does, and has
/// taken exactly the lethal damage, whatever that leaves.
pub proof fn lemma_destroy_deals_lethal_damage(ship: Ship)
    requires
        ship.craft.health - LETHAL_DAMAGE >= i32::MIN,
    ensures
        ship.decided(ShipUsageDecision::Destroy).pending is None,
        ship.decided(ShipUsageDecision::Destroy).craft.health == ship.craft.health
            - LETHAL_DAMAGE,
        ship.pending is Some && ship.craft.health <= LETHAL_DAMAGE ==> ship.decided(
            ShipUsageDecision::Destroy,
        ).craft.health <= 0,
{
}

} // verus!
