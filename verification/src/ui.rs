//! What the heads-up display shows of the player's ship, as plain values
//! for whoever draws it.

use vstd::prelude::*;
use crate::profile::{ShipProfile, MAX_VELOCITY};
use crate::spacecraft::Spacecraft;
use crate::timer::Timer;

verus! {

/// The frame of the weapon indicator that shows a gun ready to fire.
pub const WEAPON_READY_FRAME: usize = 4;

/// The number of steps of the throttle indicator that the top speed of the
/// slowest ship spans.
pub const THROTTLE_STEPS: i64 = 7;

/// The quarter of its duration that a timer is in: `0` to `3` while the time
/// elapsed is short of the duration, and `0` again once it is not.
pub open spec fn quarter_of(timer: Timer) -> int {
    if 4 * timer.elapsed < timer.duration {
        0
    } else if 4 * timer.elapsed < 2 * timer.duration {
        1
    } else if 4 * timer.elapsed < 3 * timer.duration {
        2
    } else if timer.elapsed < timer.duration {
        3
    } else {
        0
    }
}

/// The frame of the weapon indicator: the ready frame once the gun has
/// reloaded, and until then the quarter of the reload that is under way.
pub open spec fn weapon_frame(ship: Spacecraft) -> int {
    if ship.weapon_cooldown.finished {
        WEAPON_READY_FRAME as int
    } else {
        quarter_of(ship.weapon_cooldown)
    }
}

/// The frame of the throttle indicator: the speed in sevenths of the top
/// speed of the slowest ship, rounded up, and zero for a ship that stands
/// or reverses.
pub open spec fn throttle_frame(ship: Spacecraft) -> int {
    if ship.velocity <= 0 {
        0
    } else {
        (ship.velocity * THROTTLE_STEPS + MAX_VELOCITY - 1) / (MAX_VELOCITY as int)
    }
}

/// Tells the frame of the weapon indicator.
pub fn update_weapon_ui(ship: &Spacecraft) -> (index: usize)
    ensures
        index == weapon_frame(*ship),
        index <= WEAPON_READY_FRAME,
{
    let timer = &ship.weapon_cooldown;
    if timer.finished() {
        WEAPON_READY_FRAME
    } else {
        let elapsed: u128 = timer.elapsed() as u128;
        let duration: u128 = timer.duration() as u128;
        if 4 * elapsed < duration {
            0
        } else if 4 * elapsed < 2 * duration {
            1
        } else if 4 * elapsed < 3 * duration {
            2
        } else if elapsed < duration {
            3
        } else {
            0
        }
    }
}

/// Tells the frame of the throttle indicator.
pub fn update_throttle_ui(ship: &Spacecraft) -> (index: usize)
    requires
        ship.wf(),
    ensures
        index == throttle_frame(*ship),
{
    if ship.velocity <= 0 {
        0
    } else {
        ((ship.velocity * THROTTLE_STEPS + MAX_VELOCITY - 1) / MAX_VELOCITY) as usize
    }
}

/// Tells the shield icons: one for every point of health that the ship's
/// type can have, lit while the ship has that point.
pub fn update_shield_ui(ship: &Spacecraft) -> (icons: Vec<bool>)
    ensures
        icons.len() == ShipProfile::of(ship.ship_type).max_health,
        forall|i: int| 0 <= i < icons.len() ==> (#[trigger] icons[i]) == (i < ship.health),
{
    let max_health: i32 = ShipProfile::from_type(ship.ship_type).max_health;
    let mut icons: Vec<bool> = Vec::new();
    let mut i: i32 = 0;
    while i < max_health
        invariant
            0 <= i <= max_health,
            max_health == ShipProfile::of(ship.ship_type).max_health,
            icons.len() == i,
            forall|k: int| 0 <= k < icons.len() ==> (#[trigger] icons[k]) == (k < ship.health),
        decreases max_health - i,
    {
        icons.push(i < ship.health);
        i = i + 1;
    }
    icons
}

} // verus!
