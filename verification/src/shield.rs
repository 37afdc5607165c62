//! The shield recharge: setting a recharge up, holding the ship still while
//! it runs, healing the ship when it completes, and the progress indicator.

use vstd::prelude::*;
use crate::animation::{step, stepped};
use crate::entity::{fleet_wf, BulletBundle, Entities, Ship, ShieldTimeRemainingTimer};
use crate::handles::{lemma_ships_changed_in_place, tables_wf};
use crate::roles::{lemma_roles_kept_in_place, roles_wf};
use crate::input::Inputs;
use crate::profile::ShipProfile;
use crate::spacecraft::Spacecraft;
use crate::timer::{Timer, TimerMode};
use crate::units::Point;

verus! {

/// The number of stages of the progress indicator.
pub const SHIELD_STAGES: u64 = 5;

/// The last stage of the progress indicator, counting from zero.
pub const LAST_SHIELD_STAGE: usize = 4;

/// The health that a completed recharge restores.
pub const SHIELD_HEALING: i32 = 1;

/// The timer that paces the progress indicator.
#[derive(Clone, Copy, PartialEq, Eq, Structural, Debug)]
pub struct SoloShieldMarker(pub Timer);

/// The progress indicator of one recharge: where it is drawn, its stage and
/// its pace.
#[derive(Clone, Copy, PartialEq, Eq, Structural, Debug)]
pub struct ShieldRenderBundle {
    pub frame_time: SoloShieldMarker,
    pub index: usize,
    pub position: Point,
}

/// The health of a ship after a completed recharge: one point more, but no
/// more than `max_health`.
pub open spec fn healed(health: int, max_health: int) -> int {
    if health + SHIELD_HEALING <= max_health {
        health + SHIELD_HEALING
    } else {
        max_health
    }
}

impl ShieldRenderBundle {
    /// The indicator of a recharge that begins on the ship `craft`: at stage
    /// zero, advancing once every fifth of the ship's recharge time.
    pub open spec fn starting(craft: Spacecraft) -> ShieldRenderBundle {
        ShieldRenderBundle {
            frame_time: SoloShieldMarker(
                Timer::fresh(
                    ShipProfile::of(craft.ship_type).shield_recharge_time / SHIELD_STAGES,
                    TimerMode::Repeating,
                ),
            ),
            index: 0,
            position: craft.position,
        }
    }
}

impl Ship {
    /// A recharge has been ordered for the ship and not yet set up.
    pub open spec fn awaits_shield(self) -> bool {
        self.recharging is Some && self.shield_timer is None
    }

    /// The ship's shield is recharging.
    pub open spec fn is_shielding(self) -> bool {
        self.shield_timer is Some && self.recharging is None
    }

    /// The ship after one tick of the recharge system.
    ///
    /// A ship that awaits a recharge or whose shield is recharging is held
    /// still, without speed or rotation. The one that awaits a recharge
    /// starts it; the one whose shield is recharging lets its timer run, and
    /// once its recharge timer has just finished the recharge ends and heals
    /// it. Any other ship is left alone.
    pub open spec fn recharged(self, delta: u64) -> Ship {
        if self.awaits_shield() {
            Ship {
                craft: Spacecraft { velocity: 0, delta_rotation: 0, ..self.craft },
                recharging: None,
                shield_timer: Some(
                    ShieldTimeRemainingTimer(
                        Timer::fresh(
                            ShipProfile::of(self.craft.ship_type).shield_recharge_time,
                            TimerMode::Once,
                        ),
                    ),
                ),
                ..self
            }
        } else if self.is_shielding() {
            let held = Spacecraft { velocity: 0, delta_rotation: 0, ..self.craft };
            if self.craft.shield_recharge.just_finished_spec() {
                Ship {
                    craft: Spacecraft {
                        health: healed(
                            self.craft.health as int,
                            ShipProfile::of(self.craft.ship_type).max_health as int,
                        ) as i32,
                        ..held
                    },
                    shield_timer: None,
                    ..self
                }
            } else {
                Ship {
                    craft: held,
                    shield_timer: Some(
                        ShieldTimeRemainingTimer(self.shield_timer.unwrap().0.ticked(delta)),
                    ),
                    ..self
                }
            }
        } else {
            self
        }
    }
}

/// The indicators of the recharges that begin on the given ships, in the
/// order of the table.
pub open spec fn indicators_for(ships: Seq<Ship>) -> Seq<ShieldRenderBundle>
    decreases ships.len(),
{
    if ships.len() == 0 {
        Seq::empty()
    } else if ships.last().awaits_shield() {
        indicators_for(ships.drop_last()).push(ShieldRenderBundle::starting(ships.last().craft))
    } else {
        indicators_for(ships.drop_last())
    }
}

/// One tick of the recharge system: every ship goes through
/// [`Ship::recharged`], and every recharge that begins gets its indicator.
pub fn recharge_shield(delta: u64, ships: &mut Vec<Ship>, shields: &mut Vec<ShieldRenderBundle>)
    ensures
        final(ships).len() == old(ships).len(),
        forall|i: int|
            0 <= i < old(ships).len() ==> (#[trigger] final(ships)[i]) == old(ships)[i].recharged(
                delta,
            ),
        final(shields)@ == old(shields)@ + indicators_for(old(ships)@),
        fleet_wf(old(ships)@) ==> fleet_wf(final(ships)@),
        roles_wf(old(ships)@) ==> roles_wf(final(ships)@),
        forall|bullets: Seq<BulletBundle>, ids: Entities| #[trigger]
            tables_wf(old(ships)@, bullets, ids) ==> tables_wf(final(ships)@, bullets, ids),
{
    let mut i: usize = 0;
    while i < ships.len()
        invariant
            i <= ships.len(),
            ships.len() == old(ships).len(),
            forall|k: int| 0 <= k < i ==> (#[trigger] ships[k]) == old(ships)[k].recharged(delta),
            forall|k: int| i <= k < ships.len() ==> (#[trigger] ships[k]) == old(ships)[k],
            shields@ == old(shields)@ + indicators_for(old(ships)@.take(i as int)),
        decreases ships.len() - i,
    {
        proof {
            assert(old(ships)@.take(i + 1).drop_last() =~= old(ships)@.take(i as int));
            assert(old(ships)@.take(i + 1).last() == old(ships)@[i as int]);
        }
        let ghost before = shields@;
        if ships[i].recharging.is_some() && ships[i].shield_timer.is_none() {
            let profile = ShipProfile::from_type(ships[i].craft.ship_type);
            shields.push(
                ShieldRenderBundle {
                    frame_time: SoloShieldMarker(
                        Timer::new(
                            profile.shield_recharge_time / SHIELD_STAGES,
                            TimerMode::Repeating,
                        ),
                    ),
                    index: 0,
                    position: ships[i].craft.position,
                },
            );
            ships[i].craft.velocity = 0;
            ships[i].craft.delta_rotation = 0;
            ships[i].recharging = None;
            ships[i].shield_timer = Some(
                ShieldTimeRemainingTimer(Timer::new(profile.shield_recharge_time, TimerMode::Once)),
            );
            proof {
                assert(shields@ =~= old(shields)@ + indicators_for(old(ships)@.take(i + 1)));
            }
        } else if ships[i].shield_timer.is_some() && ships[i].recharging.is_none() {
            let mut running = ships[i].shield_timer.unwrap().0;
            running.tick(delta);
            ships[i].craft.velocity = 0;
            ships[i].craft.delta_rotation = 0;
            if ships[i].craft.shield_recharge.just_finished() {
                ships[i].shield_timer = None;
                let max_health: i32 = ShipProfile::from_type(ships[i].craft.ship_type).max_health;
                if ships[i].craft.health < max_health {
                    ships[i].craft.health = ships[i].craft.health + SHIELD_HEALING;
                } else {
                    ships[i].craft.health = max_health;
                }
            } else {
                ships[i].shield_timer = Some(ShieldTimeRemainingTimer(running));
            }
        }
        i = i + 1;
    }
    proof {
        assert(old(ships)@.take(old(ships)@.len() as int) =~= old(ships)@);
        lemma_ships_changed_in_place(old(ships)@, ships@);
        lemma_roles_kept_in_place(old(ships)@, ships@);
        if fleet_wf(old(ships)@) {
            assert forall|k: int| 0 <= k < ships@.len() implies (#[trigger] ships@[k]).wf() by {
                assert(old(ships)@[k].wf());
            }
        }
    }
}

/// The indicators after `delta` nanoseconds: each goes through one step of
/// its sequence, and those that end leave.
pub open spec fn indicators_after(shields: Seq<ShieldRenderBundle>, delta: u64) -> Seq<
    ShieldRenderBundle,
>
    decreases shields.len(),
{
    if shields.len() == 0 {
        Seq::empty()
    } else {
        let rest = indicators_after(shields.drop_last(), delta);
        let last = shields.last();
        match stepped(last.frame_time.0, last.index, delta, LAST_SHIELD_STAGE) {
            Some(next) => rest.push(
                ShieldRenderBundle { frame_time: SoloShieldMarker(next.0), index: next.1, ..last },
            ),
            None => rest,
        }
    }
}

/// Advances the progress indicators by `delta` nanoseconds.
pub fn handle_shield_textures(delta: u64, shields: &mut Vec<ShieldRenderBundle>)
    ensures
        final(shields)@ == indicators_after(old(shields)@, delta),
{
    let mut kept: Vec<ShieldRenderBundle> = Vec::new();
    let mut i: usize = 0;
    while i < shields.len()
        invariant
            i <= shields.len(),
            kept@ == indicators_after(shields@.take(i as int), delta),
        decreases shields.len() - i,
    {
        proof {
            assert(shields@.take(i + 1).drop_last() =~= shields@.take(i as int));
            assert(shields@.take(i + 1).last() == shields@[i as int]);
        }
        let mut timer = shields[i].frame_time.0;
        let mut index: usize = shields[i].index;
        if step(&mut timer, &mut index, delta, LAST_SHIELD_STAGE) {
            kept.push(
                ShieldRenderBundle {
                    frame_time: SoloShieldMarker(timer),
                    index,
                    position: shields[i].position,
                },
            );
        }
        i = i + 1;
    }
    proof {
        assert(shields@.take(shields@.len() as int) =~= shields@);
    }
    *shields = kept;
}

/// Shield recharge: while its shield recharges a ship is held still on every
/// tick, and the tick on which its recharge timer has just finished ends the
/// recharge and raises its health by exactly one point, unless that would
/// exceed the maximum of its type, which it then has.
pub proof fn lemma_recharge_holds_then_heals(ship: Ship, delta: u64)
    requires
        ship.is_shielding(),
        ship.craft.health <= ShipProfile::of(ship.craft.ship_type).max_health,
    ensures
        ship.recharged(delta).craft.velocity == 0,
        ship.recharged(delta).craft.delta_rotation == 0,
        ship.recharged(delta).craft.health <= ShipProfile::of(ship.craft.ship_type).max_health,
        ship.craft.shield_recharge.just_finished_spec() ==> {
            &&& !ship.recharged(delta).is_shielding()
            &&& ship.recharged(delta).craft.health == if ship.craft.health < ShipProfile::of(
                ship.craft.ship_type,
            ).max_health {
                ship.craft.health + 1
            } else {
                ship.craft.health as int
            }
        },
        !ship.craft.shield_recharge.just_finished_spec() ==> {
            &&& ship.recharged(delta).is_shielding()
            &&& ship.recharged(delta).craft.health == ship.craft.health
        },
{
}

/// Held still: on every tick of the recharge system, from the one that sets
/// the recharge up to the one that ends it, a ship that has been ordered to
/// recharge comes out without speed and without rotation, where it was and
/// heading as it did; and until the recharge ends it stays a ship that is
/// held.
pub proof fn lemma_recharging_ship_is_held_still(ship: Ship, delta: u64)
    requires
        ship.awaits_shield() || ship.is_shielding(),
    ensures
        ship.recharged(delta).craft.velocity == 0,
        ship.recharged(delta).craft.delta_rotation == 0,
        ship.recharged(delta).craft.position == ship.craft.position,
        ship.recharged(delta).craft.heading == ship.craft.heading,
        ship.awaits_shield() ==> ship.recharged(delta).is_shielding(),
        ship.is_shielding() && !ship.craft.shield_recharge.just_finished_spec()
            ==> ship.recharged(delta).is_shielding(),
{
}

/// Shield activation: a ship of the player's whose shield is idle and whose
/// previous recharge has finished begins a recharge when the recharge key is
/// held in regular play. Its recharge timer starts over, and the next tick of
/// the recharge system sets the recharge up and holds the ship still, as
/// does every tick after it.
pub proof fn lemma_shield_key_starts_recharge(ship: Ship, inputs: Inputs, delta: u64)
    requires
        ship.recharging is None,
        ship.shield_timer is None,
        ship.craft.shield_recharge.finished,
        inputs.shield,
    ensures
        ship.commanded(inputs, false).awaits_shield(),
        ship.commanded(inputs, false).craft.shield_recharge
            == ship.craft.shield_recharge.rewound(),
        ship.commanded(inputs, false).recharged(delta).is_shielding(),
        ship.commanded(inputs, false).recharged(delta).craft.velocity == 0,
        ship.commanded(inputs, false).recharged(delta).craft.delta_rotation == 0,
        ship.commanded(inputs, false).recharged(delta).recharged(delta).craft.velocity == 0,
        ship.commanded(inputs, true) == (Ship { craft: ship.craft.piloted(inputs, true), ..ship }),
{
}

} // verus!
