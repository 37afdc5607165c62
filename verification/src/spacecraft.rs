//! The runtime state of one ship, and what a hit does to it.

use vstd::prelude::*;
use crate::profile::{ShipProfile, ShipType};
use crate::score::PlayerScore;
use crate::timer::{Timer, TimerMode};
use crate::units::{add_clamped, clamp, clamped_difference, Point, ANGLE_LIMIT, SPEED_LIMIT};

verus! {

/// Points for a hit by the player that a ship survives.
pub const HIT_POINTS: u32 = 5;

/// Points for a hit by the player that would have destroyed a ship.
pub const CAPTURE_POINTS: u32 = 15;

/// The mutable state of a ship.
#[derive(Clone, Copy, PartialEq, Eq, Structural, Debug)]
pub struct Spacecraft {
    pub position: Point,
    pub heading: i64,
    pub delta_rotation: i64,
    pub velocity: i64,
    pub health: i32,
    pub weapon_cooldown: Timer,
    pub shield_recharge: Timer,
    pub ship_type: ShipType,
}

/// Whether a hit of `damage` on a ship of the given health spares it for
/// capture: the hit would bring it to zero or below, and it is one that
/// reduces to one.
pub open spec fn spares_for_capture(health: int, damage: int, reduce_to_one: bool) -> bool {
    reduce_to_one && health - damage <= 0
}

/// The health left after a hit.
pub open spec fn health_after_hit(health: int, damage: int, reduce_to_one: bool) -> int {
    if spares_for_capture(health, damage, reduce_to_one) {
        1
    } else {
        health - damage
    }
}

/// The points a hit earns the player: none unless it reduces to one.
pub open spec fn reward_for_hit(health: int, damage: int, reduce_to_one: bool) -> int {
    if spares_for_capture(health, damage, reduce_to_one) {
        CAPTURE_POINTS as int
    } else if reduce_to_one {
        HIT_POINTS as int
    } else {
        0
    }
}

impl Spacecraft {
    /// Position, heading, rotation and speed are within their limits, and
    /// the health is no more than the ship's type allows.
    pub open spec fn wf(self) -> bool {
        &&& self.position.wf()
        &&& -ANGLE_LIMIT <= self.heading <= ANGLE_LIMIT
        &&& -ANGLE_LIMIT <= self.delta_rotation <= ANGLE_LIMIT
        &&& -SPEED_LIMIT <= self.velocity <= SPEED_LIMIT
        &&& self.health <= ShipProfile::of(self.ship_type).max_health
    }

    /// A ship of the given type as it is launched at `pos`: at rest, heading
    /// zero, at full health, its gun reloading from the start and its shield
    /// timer already at its duration.
    pub open spec fn launched(template: ShipType, pos: Point) -> Spacecraft {
        let profile = ShipProfile::of(template);
        Spacecraft {
            position: pos,
            heading: 0,
            delta_rotation: 0,
            velocity: 0,
            health: profile.max_health,
            weapon_cooldown: Timer::fresh(profile.gun_reload_time, TimerMode::Once),
            shield_recharge: Timer {
                elapsed: profile.shield_recharge_time,
                ..Timer::fresh(profile.shield_recharge_time, TimerMode::Once)
            },
            ship_type: template,
        }
    }

    /// The ship turned by `amount`: the heading gains it and the rotation of
    /// this frame loses it, each within the angle limit.
    pub open spec fn rotated(self, amount: int) -> Spacecraft {
        Spacecraft {
            heading: clamp(self.heading + amount, -ANGLE_LIMIT as int, ANGLE_LIMIT as int) as i64,
            delta_rotation: clamp(
                self.delta_rotation - amount,
                -ANGLE_LIMIT as int,
                ANGLE_LIMIT as int,
            ) as i64,
            ..self
        }
    }

    /// The ship after a hit.
    pub open spec fn hit(self, damage: int, reduce_to_one: bool) -> Spacecraft {
        Spacecraft {
            health: health_after_hit(self.health as int, damage, reduce_to_one) as i32,
            ..self
        }
    }

    /// Whether the ship is well formed.
    pub fn is_wf(&self) -> (b: bool)
        ensures
            b == self.wf(),
    {
        self.position.is_wf() && -ANGLE_LIMIT <= self.heading && self.heading <= ANGLE_LIMIT
            && -ANGLE_LIMIT <= self.delta_rotation && self.delta_rotation <= ANGLE_LIMIT
            && -SPEED_LIMIT <= self.velocity && self.velocity <= SPEED_LIMIT && self.health
            <= ShipProfile::from_type(self.ship_type).max_health
    }

    /// Creates a ship of the given type at `pos`.
    pub fn from_template(template: ShipType, pos: Point) -> (craft: Self)
        ensures
            craft == Spacecraft::launched(template, pos),
            pos.wf() ==> craft.wf(),
    {
        let template_ship = ShipProfile::from_type(template);
        let mut shield_recharge_timer = Timer::new(
            template_ship.shield_recharge_time,
            TimerMode::Once,
        );
        shield_recharge_timer.set_elapsed(template_ship.shield_recharge_time);
        Self {
            position: pos,
            heading: 0,
            delta_rotation: 0,
            velocity: 0,
            health: template_ship.max_health,
            ship_type: template,
            weapon_cooldown: Timer::new(template_ship.gun_reload_time, TimerMode::Once),
            shield_recharge: shield_recharge_timer,
        }
    }

    /// Turns the ship by `amount` micro-radians.
    pub fn rotate(&mut self, amount: i64)
        ensures
            *final(self) == old(self).rotated(amount as int),
            old(self).wf() ==> final(self).wf(),
    {
        self.heading = add_clamped(self.heading, amount, ANGLE_LIMIT);
        self.delta_rotation = clamped_difference(self.delta_rotation, amount, ANGLE_LIMIT);
    }

    /// Forgets the rotation of the frame that ends.
    pub fn end_frame(&mut self)
        ensures
            *final(self) == (Spacecraft { delta_rotation: 0, ..*old(self) }),
            old(self).wf() ==> final(self).wf(),
    {
        self.delta_rotation = 0;
    }

    /// Applies a hit of `damage`. A hit that reduces to one and would bring
    /// the health to zero or below leaves the ship at one point of health,
    /// earns the capture points and returns `true`: the ship is to await the
    /// player's decision. Any other hit takes `damage` off the health, which
    /// may go below zero, earns the hit points if it reduces to one, and
    /// returns `false`.
    pub fn collide(&mut self, damage: i32, reduce_to_one: bool, score: &mut PlayerScore) -> (swap:
        bool)
        requires
            i32::MIN <= old(self).health - damage <= i32::MAX,
            old(score).score + reward_for_hit(old(self).health as int, damage as int, reduce_to_one)
                <= u32::MAX,
        ensures
            swap == spares_for_capture(old(self).health as int, damage as int, reduce_to_one),
            *final(self) == old(self).hit(damage as int, reduce_to_one),
            final(score).score == old(score).score + reward_for_hit(
                old(self).health as int,
                damage as int,
                reduce_to_one,
            ),
            final(score).add_score_timer == old(score).add_score_timer,
            final(score).survived_time == old(score).survived_time,
            old(self).wf() && damage >= 0 ==> final(self).wf(),
    {
        if self.health - damage <= 0 && reduce_to_one {
            self.health = 1;
            score.score = score.score + CAPTURE_POINTS;
            true
        } else {
            self.health = self.health - damage;
            if reduce_to_one {
                score.score = score.score + HIT_POINTS;
            }
            false
        }
    }
}

/// A hit that does not reduce to one takes exactly its damage off the health,
/// whatever is left, and never spares the ship.
pub proof fn lemma_plain_hit_takes_its_damage(craft: Spacecraft, damage: i32)
    requires
        i32::MIN <= craft.health - damage <= i32::MAX,
    ensures
        craft.hit(damage as int, false).health == craft.health - damage,
        !spares_for_capture(craft.health as int, damage as int, false),
        reward_for_hit(craft.health as int, damage as int, false) == 0,
{
}

/// A hit that reduces to one and would bring the health to zero or below
/// always leaves exactly one point of health and spares the ship for capture.
pub proof fn lemma_reducing_hit_spares_the_ship(craft: Spacecraft, damage: i32)
    requires
        craft.health - damage <= 0,
    ensures
        craft.hit(damage as int, true).health == 1,
        spares_for_capture(craft.health as int, damage as int, true),
        reward_for_hit(craft.health as int, damage as int, true) == CAPTURE_POINTS,
{
}

/// No hit heals a ship that has health left: after a hit that does damage,
/// such a ship has no more health than before. (A ship without health is
/// brought back to one point by a hit that spares it.)
pub proof fn lemma_hit_never_heals_a_living_ship(
    craft: Spacecraft,
    damage: i32,
    reduce_to_one: bool,
)
    requires
        1 <= craft.health,
        0 <= damage,
    ensures
        craft.hit(damage as int, reduce_to_one).health <= craft.health,
{
}

/// No hit that does damage takes a well-formed ship above the health that
/// its type allows.
pub proof fn lemma_hit_keeps_health_within_the_maximum(
    craft: Spacecraft,
    damage: i32,
    reduce_to_one: bool,
)
    requires
        craft.wf(),
        0 <= damage,
        i32::MIN <= craft.health - damage,
    ensures
        craft.hit(damage as int, reduce_to_one).wf(),
{
}

/// The ship after `hits` hits of one point each that reduce to one.
pub open spec fn after_single_hits(craft: Spacecraft, hits: nat) -> Spacecraft
    decreases hits,
{
    if hits == 0 {
        craft
    } else {
        after_single_hits(craft, (hits - 1) as nat).hit(1, true)
    }
}

/// A ship with `health` points takes `health - 1` single hits by the player
/// without being spared, each costing one point; the hit after those is the
/// first to spare it, and leaves it at one point.
pub proof fn lemma_capture_comes_with_the_last_point(craft: Spacecraft, hits: nat)
    requires
        1 <= craft.health,
        hits < craft.health,
    ensures
        after_single_hits(craft, hits).health == craft.health - hits,
        spares_for_capture(after_single_hits(craft, hits).health as int, 1, true) <==> hits
            == craft.health - 1,
        after_single_hits(craft, hits + 1).health == if hits == craft.health - 1 {
            1
        } else {
            craft.health - hits - 1
        },
    decreases hits,
{
    if hits > 0 {
        lemma_capture_comes_with_the_last_point(craft, (hits - 1) as nat);
    }
    assert(after_single_hits(craft, hits + 1) == after_single_hits(craft, hits).hit(1, true));
}

} // verus!
