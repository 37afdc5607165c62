//! Input handling: what the keys held in one tick do to the player's ship,
//! the dialogue box and the pending decision.

use vstd::prelude::*;
use crate::capture::{GameState, ShipUsageDecision};
use crate::dialogue::Dialogue;
use crate::entity::{
    fleet_wf, get_single, is_single, BulletBundle, Entities, RechargingShieldMarker, Selector,
    Ship,
};
use crate::handles::{lemma_ships_changed_in_place, tables_wf};
use crate::roles::{lemma_roles_kept_in_place, roles_wf};
use crate::profile::{ShipProfile, ACCELERATION_SPEED, REVERSE_SHARE, TURN_SPEED};
use crate::spacecraft::Spacecraft;
use crate::units::{clamp, scale, scaled};

verus! {

/// The state of the keys in one tick.
#[derive(Clone, Copy, PartialEq, Eq, Structural, Debug)]
pub struct Inputs {
    /// Turn left is held.
    pub left: bool,
    /// Turn right is held.
    pub right: bool,
    /// Throttle up is held.
    pub up: bool,
    /// Throttle down is held.
    pub down: bool,
    /// Fire is held.
    pub fire: bool,
    /// Recharge shield is held.
    pub shield: bool,
    /// Advance dialogue is held.
    pub advance: bool,
    /// The key for the Transfer decision has just been released.
    pub transfer: bool,
    /// The key for the Keep decision has just been released.
    pub keep: bool,
    /// The key for the Destroy decision has just been released.
    pub destroy: bool,
}

impl Inputs {
    /// The decision that the keys select: the first of Transfer, Keep and
    /// Destroy whose key has just been released.
    pub open spec fn choice(self) -> Option<ShipUsageDecision> {
        if self.transfer {
            Some(ShipUsageDecision::Transfer)
        } else if self.keep {
            Some(ShipUsageDecision::Keep)
        } else if self.destroy {
            Some(ShipUsageDecision::Destroy)
        } else {
            None
        }
    }

    /// No key is held or released.
    pub fn none() -> (inputs: Inputs)
        ensures
            inputs == (Inputs {
                left: false,
                right: false,
                up: false,
                down: false,
                fire: false,
                shield: false,
                advance: false,
                transfer: false,
                keep: false,
                destroy: false,
            }),
    {
        Inputs {
            left: false,
            right: false,
            up: false,
            down: false,
            fire: false,
            shield: false,
            advance: false,
            transfer: false,
            keep: false,
            destroy: false,
        }
    }
}

/// The turn that a piloted ship of the given top speed makes in one tick.
pub open spec fn pilot_turn(max_velocity: int) -> int {
    scaled(max_velocity, TURN_SPEED as int)
}

/// The speed of a piloted ship after one tick of throttle, `direction` being
/// `1` for up and `-1` for down: the speed changes by the acceleration share
/// of the top speed, and stays between the reverse share of the top speed
/// backwards and the top speed forwards.
pub open spec fn throttled(velocity: int, max_velocity: int, direction: int) -> int {
    clamp(
        velocity + direction * scaled(max_velocity, ACCELERATION_SPEED as int),
        -scaled(max_velocity, REVERSE_SHARE as int),
        max_velocity,
    )
}

impl Spacecraft {
    /// Whether the keys make the ship fire: fire is held, the game is not
    /// paused, and the gun has reloaded.
    pub open spec fn fires(self, inputs: Inputs, paused: bool) -> bool {
        inputs.fire && !paused && self.weapon_cooldown.finished
    }

    /// Whether the keys start a shield recharge: recharge is held, the game
    /// is not paused, and the previous recharge has finished.
    pub open spec fn raises_shield(self, inputs: Inputs, paused: bool) -> bool {
        inputs.shield && !paused && self.shield_recharge.finished
    }

    /// The ship after the keys have steered it. The rotation of the last
    /// frame is forgotten; unless the game is paused the ship turns left,
    /// right or both; then the throttle goes up, down or both.
    pub open spec fn piloted(self, inputs: Inputs, paused: bool) -> Spacecraft {
        let max_velocity = ShipProfile::of(self.ship_type).max_velocity as int;
        let fresh = Spacecraft { delta_rotation: 0, ..self };
        let left = if inputs.left && !paused {
            fresh.rotated(-pilot_turn(max_velocity))
        } else {
            fresh
        };
        let right = if inputs.right && !paused {
            left.rotated(pilot_turn(max_velocity))
        } else {
            left
        };
        let up = if inputs.up {
            throttled(right.velocity as int, max_velocity, 1)
        } else {
            right.velocity as int
        };
        let down = if inputs.down {
            throttled(up, max_velocity, -1)
        } else {
            up
        };
        Spacecraft { velocity: down as i64, ..right }
    }

    /// Steers the ship as [`Spacecraft::piloted`] describes.
    pub fn pilot(&mut self, inputs: &Inputs, paused: bool)
        requires
            old(self).wf(),
        ensures
            *final(self) == old(self).piloted(*inputs, paused),
            final(self).wf(),
    {
        let max_velocity: i64 = ShipProfile::from_type(self.ship_type).max_velocity;
        let turn: i64 = scale(max_velocity, TURN_SPEED);
        let step: i64 = scale(max_velocity, ACCELERATION_SPEED);
        let reverse: i64 = scale(max_velocity, REVERSE_SHARE);
        self.end_frame();
        if inputs.left && !paused {
            self.rotate(-turn);
        }
        if inputs.right && !paused {
            self.rotate(turn);
        }
        if inputs.up {
            self.velocity = limit(self.velocity + step, -reverse, max_velocity);
        }
        if inputs.down {
            self.velocity = limit(self.velocity - step, -reverse, max_velocity);
        }
    }
}

/// Computes [`clamp`] on machine integers.
pub fn limit(value: i64, low: i64, high: i64) -> (r: i64)
    requires
        low <= high,
    ensures
        r == clamp(value as int, low as int, high as int),
{
    if value < low {
        low
    } else if value > high {
        high
    } else {
        value
    }
}

impl Ship {
    /// The player's ship after the keys have been applied to it: it is
    /// steered, its gun is left alone, and where the keys raise the shield it
    /// is marked for a recharge and its recharge timer starts over.
    pub open spec fn commanded(self, inputs: Inputs, paused: bool) -> Ship {
        let piloted = self.craft.piloted(inputs, paused);
        if piloted.raises_shield(inputs, paused) {
            Ship {
                craft: Spacecraft { shield_recharge: piloted.shield_recharge.rewound(), ..piloted },
                recharging: Some(RechargingShieldMarker),
                ..self
            }
        } else {
            Ship { craft: piloted, ..self }
        }
    }
}

/// Applies the keys of one tick.
///
/// Where the table holds exactly one ship of the player's, a decision key
/// that is released while the game is paused selects the decision to be
/// carried out. Where that ship's shield is not recharging, it is steered as
/// well and may raise its shield, and the dialogue box is dismissed if advance
/// is held. A ship whose shield recharges takes no orders.
///
/// Returns the index of the player's ship if it is to fire this tick: the
/// caller then fires its guns along the heading that the ship has now.
pub fn handle_inputs(
    inputs: &Inputs,
    ships: &mut Vec<Ship>,
    dialogue: &mut Dialogue,
    state: &GameState,
    decision: &mut Option<ShipUsageDecision>,
) -> (fire: Option<usize>)
    requires
        fleet_wf(old(ships)@),
    ensures
        final(ships).len() == old(ships).len(),
        fleet_wf(final(ships)@),
        forall|p: int|
            is_single(old(ships)@, Selector::Pilot, p) ==> {
                &&& final(ships)@ == old(ships)@.update(
                    p,
                    old(ships)[p].commanded(*inputs, *state == GameState::Paused),
                )
                &&& fire == if old(ships)[p].craft.fires(*inputs, *state == GameState::Paused) {
                    Some(p as usize)
                } else {
                    None
                }
                &&& final(dialogue).visible == (old(dialogue).visible && !inputs.advance)
            },
        (forall|p: int| !is_single(old(ships)@, Selector::Pilot, p)) ==> {
            &&& final(ships)@ == old(ships)@
            &&& fire is None
            &&& final(dialogue).visible == old(dialogue).visible
        },
        (exists|p: int| is_single(old(ships)@, Selector::Player, p)) ==> *final(decision)
            == if *state == GameState::Paused && inputs.choice() is Some {
            inputs.choice()
        } else {
            *old(decision)
        },
        (forall|p: int| !is_single(old(ships)@, Selector::Player, p)) ==> *final(decision)
            == *old(decision),
        final(dialogue).contents == old(dialogue).contents,
        roles_wf(old(ships)@) ==> roles_wf(final(ships)@),
        forall|bullets: Seq<BulletBundle>, ids: Entities| #[trigger]
            tables_wf(old(ships)@, bullets, ids) ==> tables_wf(final(ships)@, bullets, ids),
{
    let paused = *state == GameState::Paused;
    if get_single(ships, Selector::Player).is_some() {
        if paused {
            if inputs.transfer {
                *decision = Some(ShipUsageDecision::Transfer);
            } else if inputs.keep {
                *decision = Some(ShipUsageDecision::Keep);
            } else if inputs.destroy {
                *decision = Some(ShipUsageDecision::Destroy);
            }
        }
    }
    let p: usize = match get_single(ships, Selector::Pilot) {
        Some(p) => p,
        None => {
            return None;
        },
    };
    proof {
        assert forall|k: int| is_single(old(ships)@, Selector::Pilot, k) implies k == p by {
            assert(old(ships)@[p as int].selected_by(Selector::Pilot));
        }
    }
    let fire = if inputs.fire && !paused && ships[p].craft.weapon_cooldown.finished() {
        Some(p)
    } else {
        None
    };
    ships[p].craft.pilot(inputs, paused);
    if inputs.shield && !paused && ships[p].craft.shield_recharge.finished() {
        ships[p].recharging = Some(RechargingShieldMarker);
        ships[p].craft.shield_recharge.reset();
    }
    if inputs.advance {
        dialogue.dismiss();
    }
    proof {
        lemma_ships_changed_in_place(old(ships)@, ships@);
        lemma_roles_kept_in_place(old(ships)@, ships@);
        assert(ships@ =~= old(ships)@.update(
            p as int,
            old(ships)[p as int].commanded(*inputs, paused),
        ));
        assert forall|k: int| 0 <= k < ships@.len() implies (#[trigger] ships@[k]).wf() by {
            if k != p {
                assert(old(ships)@[k].wf());
            }
        }
    }
    fire
}

} // verus!
