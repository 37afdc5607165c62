//! The six ship types and their fixed stat profiles.

use vstd::prelude::*;
use crate::timer::NANOS_PER_MILLI;
use crate::units::{SPEED_LIMIT, UNIT};

verus! {

/// The turn an autonomous ship may make in one tick, in micro-radians. Scaled
/// by a profile's top speed it is the turn a piloted ship makes in one tick.
pub const TURN_SPEED: i64 = 500_000;

/// The share of its top speed that a piloted ship gains or sheds in one tick
/// of throttle, in millionths.
pub const ACCELERATION_SPEED: i64 = 5_000;

/// The speed of the slowest shot, in micro-units per tick.
pub const BULLET_SPEED: i64 = 15_000;

/// The top speed of the slowest ship, in micro-units per tick.
pub const MAX_VELOCITY: i64 = 50_000;

/// The share of its top speed that a piloted ship may reach in reverse, in
/// millionths.
pub const REVERSE_SHARE: i64 = 300_000;

/// The kinds of ship, from the weakest to the strongest.
#[derive(Clone, Copy, PartialEq, Eq, Structural, Debug)]
pub enum ShipType {
    Ship1,
    Ship2,
    Ship3,
    Ship4,
    Ship5,
    Ship6,
}

/// The stats of one ship type. Speeds are in micro-units per tick, times in
/// nanoseconds, and the scale in millionths.
#[derive(Clone, Copy, PartialEq, Eq, Structural, Debug)]
pub struct ShipProfile {
    pub max_health: i32,
    pub max_velocity: i64,
    pub shield_recharge_time: u64,
    pub gun_reload_time: u64,
    pub shots: i32,
    pub base_bullet_velocity: i64,
    pub relative_scale: i64,
}

impl ShipProfile {
    /// The profile table.
    pub open spec fn of(ship_type: ShipType) -> ShipProfile {
        match ship_type {
            ShipType::Ship1 => ShipProfile {
                max_health: 2,
                max_velocity: 50_000,
                shield_recharge_time: 4_000_000_000,
                gun_reload_time: 1_000_000_000,
                shots: 1,
                base_bullet_velocity: 15_000,
                relative_scale: 1_000_000,
            },
            ShipType::Ship2 => ShipProfile {
                max_health: 3,
                max_velocity: 65_000,
                shield_recharge_time: 3_000_000_000,
                gun_reload_time: 1_300_000_000,
                shots: 2,
                base_bullet_velocity: 13_500,
                relative_scale: 1_200_000,
            },
            ShipType::Ship3 => ShipProfile {
                max_health: 5,
                max_velocity: 85_000,
                shield_recharge_time: 3_000_000_000,
                gun_reload_time: 600_000_000,
                shots: 1,
                base_bullet_velocity: 19_500,
                relative_scale: 1_400_000,
            },
            ShipType::Ship4 => ShipProfile {
                max_health: 6,
                max_velocity: 70_000,
                shield_recharge_time: 2_000_000_000,
                gun_reload_time: 1_000_000_000,
                shots: 3,
                base_bullet_velocity: 15_000,
                relative_scale: 1_600_000,
            },
            ShipType::Ship5 => ShipProfile {
                max_health: 7,
                max_velocity: 115_000,
                shield_recharge_time: 2_000_000_000,
                gun_reload_time: 1_400_000_000,
                shots: 1,
                base_bullet_velocity: 45_000,
                relative_scale: 1_800_000,
            },
            ShipType::Ship6 => ShipProfile {
                max_health: 10,
                max_velocity: 100_000,
                shield_recharge_time: 1_000_000_000,
                gun_reload_time: 400_000_000,
                shots: 3,
                base_bullet_velocity: 30_000,
                relative_scale: 2_400_000,
            },
        }
    }

    /// Looks a ship type up in the profile table.
    pub fn from_type(ship_type: ShipType) -> (profile: ShipProfile)
        ensures
            profile == ShipProfile::of(ship_type),
    {
        match ship_type {
            ShipType::Ship1 => ShipProfile {
                max_health: 2,
                max_velocity: MAX_VELOCITY,
                shield_recharge_time: 4_000 * NANOS_PER_MILLI,
                gun_reload_time: 1_000 * NANOS_PER_MILLI,
                shots: 1,
                base_bullet_velocity: BULLET_SPEED,
                relative_scale: UNIT,
            },
            ShipType::Ship2 => ShipProfile {
                max_health: 3,
                max_velocity: MAX_VELOCITY / 10 * 13,
                shield_recharge_time: 3_000 * NANOS_PER_MILLI,
                gun_reload_time: 1_300 * NANOS_PER_MILLI,
                shots: 2,
                base_bullet_velocity: BULLET_SPEED / 10 * 9,
                relative_scale: UNIT / 10 * 12,
            },
            ShipType::Ship3 => ShipProfile {
                max_health: 5,
                max_velocity: MAX_VELOCITY / 10 * 17,
                shield_recharge_time: 3_000 * NANOS_PER_MILLI,
                gun_reload_time: 600 * NANOS_PER_MILLI,
                shots: 1,
                base_bullet_velocity: BULLET_SPEED / 10 * 13,
                relative_scale: UNIT / 10 * 14,
            },
            ShipType::Ship4 => ShipProfile {
                max_health: 6,
                max_velocity: MAX_VELOCITY / 10 * 14,
                shield_recharge_time: 2_000 * NANOS_PER_MILLI,
                gun_reload_time: 1_000 * NANOS_PER_MILLI,
                shots: 3,
                base_bullet_velocity: BULLET_SPEED,
                relative_scale: UNIT / 10 * 16,
            },
            ShipType::Ship5 => ShipProfile {
                max_health: 7,
                max_velocity: MAX_VELOCITY / 10 * 23,
                shield_recharge_time: 2_000 * NANOS_PER_MILLI,
                gun_reload_time: 1_400 * NANOS_PER_MILLI,
                shots: 1,
                base_bullet_velocity: BULLET_SPEED * 3,
                relative_scale: UNIT / 10 * 18,
            },
            ShipType::Ship6 => ShipProfile {
                max_health: 10,
                max_velocity: MAX_VELOCITY * 2,
                shield_recharge_time: 1_000 * NANOS_PER_MILLI,
                gun_reload_time: 400 * NANOS_PER_MILLI,
                shots: 3,
                base_bullet_velocity: BULLET_SPEED * 2,
                relative_scale: UNIT / 10 * 24,
            },
        }
    }
}

/// Every profile has two to ten points of health, one to three guns, a top
/// speed between that of the slowest ship and the speed limit, a shot of at
/// most three times the speed of the slowest, a scale of one to three, and
/// timers that take time.
pub proof fn lemma_profiles_are_sound(ship_type: ShipType)
    ensures
        2 <= ShipProfile::of(ship_type).max_health <= 10,
        1 <= ShipProfile::of(ship_type).shots <= 3,
        MAX_VELOCITY <= ShipProfile::of(ship_type).max_velocity <= SPEED_LIMIT,
        0 < ShipProfile::of(ship_type).base_bullet_velocity <= 3 * BULLET_SPEED,
        ShipProfile::of(ship_type).shield_recharge_time > 0,
        ShipProfile::of(ship_type).gun_reload_time > 0,
        UNIT <= ShipProfile::of(ship_type).relative_scale <= 3 * UNIT,
{
}

} // verus!
