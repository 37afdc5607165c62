//! The entity tables: ships and bullets under their handles, the marks a ship
//! can carry, and the lookup of a ship that must be the only one of its kind.

use vstd::prelude::*;
use crate::spacecraft::Spacecraft;
use crate::timer::Timer;
use crate::units::{Point, COORD_LIMIT};

verus! {

/// Marks the ship that the player controls.
#[derive(Clone, Copy, PartialEq, Eq, Structural, Debug)]
pub struct PlayerMarker;

/// Marks an ally: a captured ship that steers itself and fights for the player.
#[derive(Clone, Copy, PartialEq, Eq, Structural, Debug)]
pub struct Captured;

/// Marks a ship whose shield recharge has been ordered and not yet set up.
#[derive(Clone, Copy, PartialEq, Eq, Structural, Debug)]
pub struct RechargingShieldMarker;

/// Carried by a ship while its shield recharges; the timer runs alongside.
#[derive(Clone, Copy, PartialEq, Eq, Structural, Debug)]
pub struct ShieldTimeRemainingTimer(pub Timer);

/// Marks a ship that was hit and is owed an explosion sequence.
#[derive(Clone, Copy, PartialEq, Eq, Structural, Debug)]
pub struct ExplosionMarker;

/// Marks a defeated ship that awaits the player's decision. While it is
/// carried, clean-up passes the ship by.
#[derive(Clone, Copy, PartialEq, Eq, Structural, Debug)]
pub struct MyFateLiesInTheBalanceAndIWouldReallyAppreciateIfIfYouDidntKillMeMarker;

/// Marks the ship that the player is about to take over.
#[derive(Clone, Copy, PartialEq, Eq, Structural, Debug)]
pub struct SwapToShipMarker;

/// The steering state of an autonomous ship: the offset by which it misses
/// its aim.
#[derive(Clone, Copy, PartialEq, Eq, Structural, Debug)]
pub struct NPCLogic(pub Point);

/// A ship in the ship table: its handle, its state and its marks.
#[derive(Clone, Copy, PartialEq, Eq, Debug)]
pub struct Ship {
    pub entity: u64,
    pub craft: Spacecraft,
    pub player: Option<PlayerMarker>,
    pub logic: Option<NPCLogic>,
    pub captured: Option<Captured>,
    pub recharging: Option<RechargingShieldMarker>,
    pub shield_timer: Option<ShieldTimeRemainingTimer>,
    pub explosion: Option<ExplosionMarker>,
    pub pending: Option<MyFateLiesInTheBalanceAndIWouldReallyAppreciateIfIfYouDidntKillMeMarker>,
    pub swap_to: Option<SwapToShipMarker>,
}

/// A shot in flight.
#[derive(Clone, Copy, PartialEq, Eq, Structural, Debug)]
pub struct Bullet {
    pub heading: i64,
    pub position: Point,
    pub velocity: i64,
    /// The handle of the ship that fired. The ship may be gone by now.
    pub shooter: u64,
    /// While this timer runs the shot cannot harm its shooter.
    pub immunity_time: Timer,
    pub player_shot: bool,
}

/// A bullet in the bullet table, under its handle.
#[derive(Clone, Copy, PartialEq, Eq, Structural, Debug)]
pub struct BulletBundle {
    pub entity: u64,
    pub bullet: Bullet,
}

/// Hands out entity handles, each once.
#[derive(Clone, Copy, PartialEq, Eq, Structural, Debug)]
pub struct Entities {
    pub next: u64,
}

/// The kinds of ship that a system may need exactly one of.
#[derive(Clone, Copy, PartialEq, Eq, Structural, Debug)]
pub enum Selector {
    /// The player's ship.
    Player,
    /// The player's ship, unless its shield is recharging.
    Pilot,
    /// The ship that awaits the player's decision.
    Pending,
    /// The ship that the player is about to take over.
    SwapTarget,
}

impl Bullet {
    /// The position and the speed are within their limits.
    pub open spec fn wf(self) -> bool {
        &&& self.position.wf()
        &&& -COORD_LIMIT <= self.velocity <= COORD_LIMIT
    }

    /// Whether the shot still spares the ship `entity` as its own shooter.
    pub open spec fn shields(self, entity: u64) -> bool {
        self.shooter == entity && !self.immunity_time.finished
    }
}

impl Ship {
    /// The ship's state is well formed, and so is its aim offset.
    pub open spec fn wf(self) -> bool {
        &&& self.craft.wf()
        &&& self.logic matches Some(logic) ==> logic.0.wf()
    }

    /// A ship that steers itself against the player.
    pub open spec fn is_hostile_npc(self) -> bool {
        self.logic is Some && self.captured is None && self.player is None
    }

    /// A ship that steers itself for the player.
    pub open spec fn is_ally_npc(self) -> bool {
        self.logic is Some && self.captured is Some && self.player is None
    }

    /// A ship that counts as deployed threat: neither the player's nor an ally.
    pub open spec fn is_enemy(self) -> bool {
        self.player is None && self.captured is None
    }

    /// Whether the ship is of the kind that `selector` asks for.
    pub open spec fn selected_by(self, selector: Selector) -> bool {
        match selector {
            Selector::Player => self.player is Some,
            Selector::Pilot => self.player is Some && self.recharging is None
                && self.shield_timer is None,
            Selector::Pending => self.pending is Some,
            Selector::SwapTarget => self.swap_to is Some,
        }
    }

    /// A ship with the given handle and state that carries no mark.
    pub open spec fn bare(entity: u64, craft: Spacecraft) -> Ship {
        Ship {
            entity,
            craft,
            player: None,
            logic: None,
            captured: None,
            recharging: None,
            shield_timer: None,
            explosion: None,
            pending: None,
            swap_to: None,
        }
    }

    /// Creates a ship with the given handle and state that carries no mark.
    pub fn new(entity: u64, craft: Spacecraft) -> (ship: Ship)
        ensures
            ship == Ship::bare(entity, craft),
    {
        Ship {
            entity,
            craft,
            player: None,
            logic: None,
            captured: None,
            recharging: None,
            shield_timer: None,
            explosion: None,
            pending: None,
            swap_to: None,
        }
    }

    /// Whether the ship is well formed.
    pub fn is_wf(&self) -> (b: bool)
        ensures
            b == self.wf(),
    {
        self.craft.is_wf() && match self.logic {
            Some(logic) => logic.0.is_wf(),
            None => true,
        }
    }

    /// Decides [`Ship::selected_by`].
    pub fn is_selected_by(&self, selector: Selector) -> (b: bool)
        ensures
            b == self.selected_by(selector),
    {
        match selector {
            Selector::Player => self.player.is_some(),
            Selector::Pilot => self.player.is_some() && self.recharging.is_none()
                && self.shield_timer.is_none(),
            Selector::Pending => self.pending.is_some(),
            Selector::SwapTarget => self.swap_to.is_some(),
        }
    }
}

impl Entities {
    /// Creates an allocator that has handed out nothing.
    pub fn new() -> (ids: Entities)
        ensures
            ids.next == 0,
    {
        Entities { next: 0 }
    }

    /// Hands out the next handle.
    pub fn spawn(&mut self) -> (entity: u64)
        requires
            old(self).next < u64::MAX,
        ensures
            entity == old(self).next,
            final(self).next == old(self).next + 1,
    {
        let entity: u64 = self.next;
        self.next = self.next + 1;
        entity
    }
}

/// Every ship in the table is well formed.
pub open spec fn fleet_wf(ships: Seq<Ship>) -> bool {
    forall|i: int| 0 <= i < ships.len() ==> (#[trigger] ships[i]).wf()
}

/// Every bullet in the table is well formed.
pub open spec fn bullets_wf(bullets: Seq<BulletBundle>) -> bool {
    forall|i: int| 0 <= i < bullets.len() ==> (#[trigger] bullets[i]).bullet.wf()
}

/// Decides [`fleet_wf`].
pub fn fleet_is_wf(ships: &Vec<Ship>) -> (b: bool)
    ensures
        b == fleet_wf(ships@),
{
    let mut i: usize = 0;
    while i < ships.len()
        invariant
            i <= ships.len(),
            forall|k: int| 0 <= k < i ==> (#[trigger] ships[k]).wf(),
        decreases ships.len() - i,
    {
        if !ships[i].is_wf() {
            return false;
        }
        i = i + 1;
    }
    true
}

/// Decides [`bullets_wf`].
pub fn bullets_are_wf(bullets: &Vec<BulletBundle>) -> (b: bool)
    ensures
        b == bullets_wf(bullets@),
{
    let mut i: usize = 0;
    while i < bullets.len()
        invariant
            i <= bullets.len(),
            forall|k: int| 0 <= k < i ==> (#[trigger] bullets[k]).bullet.wf(),
        decreases bullets.len() - i,
    {
        let bullet = &bullets[i].bullet;
        if !(bullet.position.is_wf() && -COORD_LIMIT <= bullet.velocity && bullet.velocity
            <= COORD_LIMIT) {
            return false;
        }
        i = i + 1;
    }
    true
}

/// The ship at index `i` is the only one in the table that `selector` asks for.
pub open spec fn is_single(ships: Seq<Ship>, selector: Selector, i: int) -> bool {
    &&& 0 <= i < ships.len()
    &&& ships[i].selected_by(selector)
    &&& forall|j: int|
        0 <= j < ships.len() && (#[trigger] ships[j]).selected_by(selector) ==> j == i
}

/// No two ships in the table are of the kind that `selector` asks for.
pub open spec fn at_most_one(ships: Seq<Ship>, selector: Selector) -> bool {
    forall|i: int, j: int|
        0 <= i < ships.len() && 0 <= j < ships.len() && (#[trigger] ships[i]).selected_by(selector)
            && (#[trigger] ships[j]).selected_by(selector) ==> i == j
}

/// No ship in the table is of the kind that `selector` asks for.
pub open spec fn none_selected(ships: Seq<Ship>, selector: Selector) -> bool {
    forall|i: int| 0 <= i < ships.len() ==> !(#[trigger] ships[i]).selected_by(selector)
}

/// The index of the one ship that `selector` asks for, or `None` where the
/// table holds no such ship or more than one.
pub fn get_single(ships: &Vec<Ship>, selector: Selector) -> (found: Option<usize>)
    ensures
        found matches Some(i) ==> is_single(ships@, selector, i as int),
        found is None ==> forall|i: int| !is_single(ships@, selector, i),
{
    let mut found: Option<usize> = None;
    let mut i: usize = 0;
    while i < ships.len()
        invariant
            i <= ships.len(),
            found matches Some(k) ==> k < i && ships[k as int].selected_by(selector) && forall|
                j: int,
            |
                0 <= j < i && (#[trigger] ships[j]).selected_by(selector) ==> j == k,
            found is None ==> forall|j: int|
                0 <= j < i ==> !(#[trigger] ships[j]).selected_by(selector),
        decreases ships.len() - i,
    {
        if ships[i].is_selected_by(selector) {
            if found.is_some() {
                proof {
                    let k = found.unwrap() as int;
                    assert forall|n: int| !is_single(ships@, selector, n) by {
                        if is_single(ships@, selector, n) {
                            assert(ships@[k].selected_by(selector));
                            assert(ships@[i as int].selected_by(selector));
                        }
                    }
                }
                return None;
            }
            found = Some(i);
        }
        i = i + 1;
    }
    proof {
        if found is None {
            assert forall|n: int| !is_single(ships@, selector, n) by {
                if is_single(ships@, selector, n) {
                    assert(ships@[n].selected_by(selector));
                }
            }
        }
    }
    found
}

/// A table with a single ship of a kind has at most one of that kind, and a
/// table with at most one has a single one as soon as it has any.
pub proof fn lemma_single_means_at_most_one(ships: Seq<Ship>, selector: Selector, i: int)
    requires
        0 <= i < ships.len(),
        ships[i].selected_by(selector),
    ensures
        is_single(ships, selector, i) <==> at_most_one(ships, selector),
{
    if is_single(ships, selector, i) {
        assert forall|a: int, b: int|
            0 <= a < ships.len() && 0 <= b < ships.len() && (#[trigger] ships[a]).selected_by(
                selector,
            ) && (#[trigger] ships[b]).selected_by(selector) implies a == b by {
            assert(a == i);
            assert(b == i);
        }
    }
}

} // verus!
