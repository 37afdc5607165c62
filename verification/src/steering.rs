//! Steering of the ships that fly themselves: whom they aim at, how they
//! turn, how fast they go and when they fire.

use vstd::prelude::*;
use crate::chance::random_between;
use crate::entity::{fleet_wf, BulletBundle, Entities, Ship};
use crate::handles::{lemma_ships_changed_in_place, tables_wf};
use crate::roles::{lemma_roles_kept_in_place, roles_wf};
use crate::movement::DelayedPlayerLocation;
use crate::profile::{ShipProfile, TURN_SPEED};
use crate::spacecraft::Spacecraft;
use crate::units::{clamp, clamped_difference, floor_sqrt, Point, UNIT};

verus! {

/// At this distance from its target, and beyond, a ship goes at full speed;
/// within it, a ship may fire. In micro-units.
pub const FAR_THRESHOLD: i64 = 1_200_000;

/// Closer to its target than this a ship stands still. In micro-units.
pub const NEAR_THRESHOLD: i64 = 500_000;

/// The distance at which the speed that grows with the distance reaches the
/// top speed, in micro-units.
pub const FULL_SPEED_DISTANCE: i64 = 700_000;

/// The share of the ideal speed that a ship actually flies at, in percent.
pub const AGGRESSIVENESS: i64 = 15;

/// A hostile ship that could fire does so when a draw from `0..UNIT` exceeds
/// this.
pub const FIRE_THRESHOLD: i64 = 500_000;

/// The speed that a ship would ideally have at the distance `dist` from its
/// target: none within the near threshold, the top speed at the far
/// threshold and beyond, and in between a speed that grows in proportion to
/// the distance, up to the top speed.
pub open spec fn ideal_speed(dist: int, max_speed: int) -> int {
    if dist >= FAR_THRESHOLD {
        max_speed
    } else if dist < NEAR_THRESHOLD {
        0
    } else {
        let linear = dist * max_speed / (FULL_SPEED_DISTANCE as int);
        if linear < max_speed {
            linear
        } else {
            max_speed
        }
    }
}

/// The speed that a ship flies at: the aggressiveness share of the ideal.
pub open spec fn cruise_speed(dist: int, max_speed: int) -> int {
    ideal_speed(dist, max_speed) * AGGRESSIVENESS / 100
}

/// Computes [`cruise_speed`].
pub fn cruise(dist: i64, max_speed: i64) -> (speed: i64)
    requires
        0 <= dist,
        0 <= max_speed <= UNIT,
    ensures
        speed == cruise_speed(dist as int, max_speed as int),
        0 <= speed <= max_speed,
{
    let ideal: i64 = if dist >= FAR_THRESHOLD {
        max_speed
    } else if dist < NEAR_THRESHOLD {
        0
    } else {
        assert(dist * max_speed <= 1_200_000 * 1_000_000) by (nonlinear_arith)
            requires
                0 <= dist < 1_200_000,
                0 <= max_speed <= 1_000_000,
        ;
        assert(dist * max_speed >= 0) by (nonlinear_arith)
            requires
                0 <= dist,
                0 <= max_speed,
        ;
        let linear: i64 = dist * max_speed / FULL_SPEED_DISTANCE;
        if linear < max_speed {
            linear
        } else {
            max_speed
        }
    };
    ideal * AGGRESSIVENESS / 100
}

impl Spacecraft {
    /// Whether `target` is closer than the far threshold.
    pub open spec fn in_firing_range(self, target: Point) -> bool {
        self.position.distance_squared_spec(target) < FAR_THRESHOLD * FAR_THRESHOLD
    }

    /// Whether the ship could fire at `target`: its gun has reloaded and the
    /// target is in range.
    pub open spec fn ready_to_fire(self, target: Point) -> bool {
        self.weapon_cooldown.finished && self.in_firing_range(target)
    }

    /// The ship after it has steered towards a target at `target` that lies
    /// in the direction `bearing`. The rotation of the last frame is
    /// forgotten, the ship turns towards the bearing by at most the turn
    /// speed, and its speed becomes the cruise speed for its distance.
    pub open spec fn steered(self, bearing: int, target: Point) -> Spacecraft {
        let turn = clamp(bearing - self.heading, -TURN_SPEED as int, TURN_SPEED as int);
        let turned = (Spacecraft { delta_rotation: 0, ..self }).rotated(turn);
        Spacecraft {
            velocity: cruise_speed(
                floor_sqrt(self.position.distance_squared_spec(target)),
                ShipProfile::of(self.ship_type).max_velocity as int,
            ) as i64,
            ..turned
        }
    }

    /// Steers the ship as [`Spacecraft::steered`] describes, and says whether
    /// it could fire at the target.
    pub fn steer(&mut self, bearing: i64, target: &Point) -> (ready: bool)
        requires
            old(self).wf(),
            target.wf(),
        ensures
            *final(self) == old(self).steered(bearing as int, *target),
            ready == old(self).ready_to_fire(*target),
            final(self).wf(),
    {
        self.end_frame();
        let turn: i64 = clamped_difference(bearing, self.heading, TURN_SPEED);
        self.rotate(turn);
        let max_speed: i64 = ShipProfile::from_type(self.ship_type).max_velocity;
        let dist: i64 = self.position.distance(target);
        self.velocity = cruise(dist, max_speed);
        let range: u64 = (FAR_THRESHOLD * FAR_THRESHOLD) as u64;
        self.weapon_cooldown.finished() && self.position.distance_squared(target) < range
    }
}

/// The squared distance from `from` to the ship at index `k`.
pub open spec fn range_to(ships: Seq<Ship>, from: Point, k: int) -> int {
    from.distance_squared_spec(ships[k].craft.position)
}

/// The ship at index `k` is the hostile ship nearest to `from`, and the
/// first in the table among those equally near.
pub open spec fn is_nearest_hostile(ships: Seq<Ship>, from: Point, k: int) -> bool {
    &&& 0 <= k < ships.len()
    &&& ships[k].is_hostile_npc()
    &&& forall|j: int|
        0 <= j < ships.len() && (#[trigger] ships[j]).is_hostile_npc() ==> {
            ||| range_to(ships, from, j) > range_to(ships, from, k)
            ||| range_to(ships, from, j) == range_to(ships, from, k) && j >= k
        }
}

/// The table holds a hostile ship.
pub open spec fn has_hostile(ships: Seq<Ship>) -> bool {
    exists|k: int| 0 <= k < ships.len() && (#[trigger] ships[k]).is_hostile_npc()
}

/// The index of the hostile ship nearest to `from`.
pub open spec fn nearest_hostile_spec(ships: Seq<Ship>, from: Point) -> int {
    choose|k: int| is_nearest_hostile(ships, from, k)
}

/// The nearest hostile ship is unique.
pub proof fn lemma_nearest_hostile_is_unique(ships: Seq<Ship>, from: Point, k: int)
    requires
        is_nearest_hostile(ships, from, k),
    ensures
        nearest_hostile_spec(ships, from) == k,
        has_hostile(ships),
{
    let c = nearest_hostile_spec(ships, from);
    assert(is_nearest_hostile(ships, from, c));
    assert(ships[k].is_hostile_npc());
    assert(ships[c].is_hostile_npc());
}

/// The index of the hostile ship nearest to `from`, if there is any.
pub fn nearest_hostile(ships: &Vec<Ship>, from: &Point) -> (found: Option<usize>)
    requires
        fleet_wf(ships@),
        from.wf(),
    ensures
        found matches Some(k) ==> is_nearest_hostile(ships@, *from, k as int),
        found is None ==> !has_hostile(ships@),
{
    let mut best: Option<(usize, u64)> = None;
    let mut i: usize = 0;
    while i < ships.len()
        invariant
            i <= ships.len(),
            fleet_wf(ships@),
            from.wf(),
            best matches Some((k, d)) ==> {
                &&& k < i
                &&& ships[k as int].is_hostile_npc()
                &&& d == range_to(ships@, *from, k as int)
                &&& forall|j: int|
                    0 <= j < i && (#[trigger] ships[j]).is_hostile_npc() ==> {
                        ||| range_to(ships@, *from, j) > d
                        ||| range_to(ships@, *from, j) == d && j >= k
                    }
            },
            best is None ==> forall|j: int| 0 <= j < i ==> !(#[trigger] ships[j]).is_hostile_npc(),
        decreases ships.len() - i,
    {
        let ship = &ships[i];
        if ship.logic.is_some() && ship.captured.is_none() && ship.player.is_none() {
            assert(ships[i as int].wf());
            let d: u64 = from.distance_squared(&ship.craft.position);
            let closer = match best {
                Some((_, least)) => d < least,
                None => true,
            };
            if closer {
                best = Some((i, d));
            }
        }
        i = i + 1;
    }
    match best {
        Some((k, _)) => Some(k),
        None => None,
    }
}

/// Whether a ship that steers itself fires, given whether it could, whether
/// it is an ally, and the draw that decides for a hostile ship.
pub open spec fn fires_on(ready: bool, ally: bool, roll: int) -> bool {
    ready && (ally || roll > FIRE_THRESHOLD)
}

/// Decides [`fires_on`].
pub fn npc_fires(ready: bool, ally: bool, roll: i64) -> (order: bool)
    ensures
        order == fires_on(ready, ally, roll as int),
{
    ready && (ally || roll > FIRE_THRESHOLD)
}

/// What the ship at index `i` steers towards: a hostile ship towards
/// `player`, an ally towards the nearest hostile ship if there is one, and
/// any other ship towards nothing.
pub open spec fn target_of(ships: Seq<Ship>, i: int, player: Point) -> Option<Point> {
    if ships[i].is_hostile_npc() {
        Some(player)
    } else if ships[i].is_ally_npc() && has_hostile(ships) {
        Some(ships[nearest_hostile_spec(ships, ships[i].craft.position)].craft.position)
    } else {
        None
    }
}

/// The vector from the ship at index `i` to the point it aims at: its
/// target, displaced by its aim offset if it is hostile.
pub open spec fn aim_of(ships: Seq<Ship>, i: int, player: Point) -> Option<(int, int)> {
    match target_of(ships, i, player) {
        Some(target) => {
            let offset = if ships[i].is_hostile_npc() {
                ships[i].logic.unwrap().0
            } else {
                Point { x: 0, y: 0 }
            };
            Some(
                (
                    target.x - ships[i].craft.position.x + offset.x,
                    target.y - ships[i].craft.position.y + offset.y,
                ),
            )
        },
        None => None,
    }
}

/// Where the table holds a hostile ship, one of them is the nearest.
pub proof fn lemma_some_hostile_is_nearest(ships: Seq<Ship>, from: Point, upto: int) -> (k: int)
    requires
        0 <= upto <= ships.len(),
        exists|j: int| 0 <= j < upto && (#[trigger] ships[j]).is_hostile_npc(),
    ensures
        0 <= k < upto,
        ships[k].is_hostile_npc(),
        forall|j: int|
            0 <= j < upto && (#[trigger] ships[j]).is_hostile_npc() ==> {
                ||| range_to(ships, from, j) > range_to(ships, from, k)
                ||| range_to(ships, from, j) == range_to(ships, from, k) && j >= k
            },
    decreases upto,
{
    let last = upto - 1;
    if exists|j: int| 0 <= j < last && (#[trigger] ships[j]).is_hostile_npc() {
        let k = lemma_some_hostile_is_nearest(ships, from, last);
        if ships[last].is_hostile_npc() && range_to(ships, from, last) < range_to(ships, from, k) {
            last
        } else {
            k
        }
    } else {
        let j = choose|j: int| 0 <= j < upto && (#[trigger] ships[j]).is_hostile_npc();
        assert(j == last);
        last
    }
}

/// Finds what the ship at index `i` steers towards.
pub fn find_target(ships: &Vec<Ship>, i: usize, player: &Point) -> (target: Option<Point>)
    requires
        i < ships.len(),
        fleet_wf(ships@),
    ensures
        target == target_of(ships@, i as int, *player),
        target matches Some(t) ==> (player.wf() ==> t.wf()),
{
    let ship = &ships[i];
    assert(ships[i as int].wf());
    if ship.logic.is_some() && ship.player.is_none() {
        if ship.captured.is_none() {
            Some(*player)
        } else {
            match nearest_hostile(ships, &ship.craft.position) {
                Some(k) => {
                    proof {
                        lemma_nearest_hostile_is_unique(ships@, ship.craft.position, k as int);
                        assert(ships[k as int].wf());
                    }
                    Some(ships[k].craft.position)
                },
                None => None,
            }
        }
    } else {
        None
    }
}

/// For every ship, the vector whose bearing it wants to head along, or
/// `None` for a ship that is not steered. The caller turns each vector
/// `(x, y)` into the bearing `atan2(x, y)`, in micro-radians, and hands the
/// bearings to [`handle_npc_logic`].
pub fn npc_aims(ships: &Vec<Ship>, player: &DelayedPlayerLocation) -> (aims: Vec<
    Option<(i64, i64)>,
>)
    requires
        fleet_wf(ships@),
        player.current_location.wf(),
    ensures
        aims.len() == ships.len(),
        forall|i: int|
            0 <= i < ships.len() ==> match aim_of(ships@, i, player.current_location) {
                Some(aim) => (#[trigger] aims[i]) matches Some(found) && found.0 == aim.0
                    && found.1 == aim.1,
                None => aims[i] is None,
            },
{
    let mut aims: Vec<Option<(i64, i64)>> = Vec::new();
    let mut i: usize = 0;
    while i < ships.len()
        invariant
            i <= ships.len(),
            aims.len() == i,
            fleet_wf(ships@),
            player.current_location.wf(),
            forall|k: int|
                0 <= k < i ==> match aim_of(ships@, k, player.current_location) {
                    Some(aim) => (#[trigger] aims[k]) matches Some(found) && found.0 == aim.0
                        && found.1 == aim.1,
                    None => aims[k] is None,
                },
        decreases ships.len() - i,
    {
        assert(ships[i as int].wf());
        let aim = match find_target(ships, i, &player.current_location) {
            Some(target) => {
                let position = ships[i].craft.position;
                let offset = match ships[i].logic {
                    Some(logic) => if ships[i].captured.is_none() {
                        logic.0
                    } else {
                        Point::origin()
                    },
                    None => Point::origin(),
                };
                Some((target.x - position.x + offset.x, target.y - position.y + offset.y))
            },
            None => None,
        };
        aims.push(aim);
        i = i + 1;
    }
    aims
}

impl Ship {
    /// A self-steering ship after one tick of its logic, given the bearing
    /// of its aim, its target and whether it fires. It steers towards the
    /// bearing; a hostile ship that could fire and does not starts its reload
    /// over.
    pub open spec fn navigated(self, bearing: int, target: Point, fires: bool) -> Ship {
        let craft = self.craft.steered(bearing, target);
        Ship {
            craft: if self.is_hostile_npc() && self.craft.ready_to_fire(target) && !fires {
                Spacecraft { weapon_cooldown: craft.weapon_cooldown.rewound(), ..craft }
            } else {
                craft
            },
            ..self
        }
    }
}

/// One tick of the logic of the ships that fly themselves.
///
/// `bearings[i]` is the bearing of the aim of the ship at index `i`, as
/// [`npc_aims`] asks for it; it is ignored for a ship without a target. Every
/// ship with a target steers towards its bearing. An ally that could fire
/// does; a hostile ship that could fire does so if a random draw from
/// `0..UNIT` says so, and otherwise starts its reload over.
///
/// Returns, for every ship, whether it is to fire this tick: the caller then
/// fires its guns along the heading that the ship has now.
pub fn handle_npc_logic(
    ships: &mut Vec<Ship>,
    player: &DelayedPlayerLocation,
    bearings: &Vec<i64>,
) -> (orders: Vec<bool>)
    requires
        fleet_wf(old(ships)@),
        player.current_location.wf(),
        bearings.len() == old(ships).len(),
    ensures
        final(ships).len() == old(ships).len(),
        orders.len() == old(ships).len(),
        forall|i: int|
            0 <= i < old(ships).len() ==> match target_of(
                old(ships)@,
                i,
                player.current_location,
            ) {
                Some(target) => {
                    &&& (#[trigger] final(ships)[i]) == old(ships)[i].navigated(
                        bearings[i] as int,
                        target,
                        orders[i],
                    )
                    &&& orders[i] ==> old(ships)[i].craft.ready_to_fire(target)
                    &&& old(ships)[i].is_ally_npc() && old(ships)[i].craft.ready_to_fire(target)
                        ==> orders[i]
                },
                None => final(ships)[i] == old(ships)[i] && !orders[i],
            },
        fleet_wf(final(ships)@),
        roles_wf(old(ships)@) ==> roles_wf(final(ships)@),
        forall|bullets: Seq<BulletBundle>, ids: Entities| #[trigger]
            tables_wf(old(ships)@, bullets, ids) ==> tables_wf(final(ships)@, bullets, ids),
{
    let mut orders: Vec<bool> = Vec::new();
    let mut i: usize = 0;
    while i < ships.len()
        invariant
            i <= ships.len(),
            ships.len() == old(ships).len(),
            bearings.len() == ships.len(),
            orders.len() == i,
            fleet_wf(old(ships)@),
            fleet_wf(ships@),
            player.current_location.wf(),
            forall|k: int|
                0 <= k < ships.len() ==> (#[trigger] ships[k]).craft.position == old(
                    ships,
                )[k].craft.position && ships[k].logic == old(ships)[k].logic && ships[k].captured
                    == old(ships)[k].captured && ships[k].player == old(ships)[k].player,
            forall|k: int| i <= k < ships.len() ==> (#[trigger] ships[k]) == old(ships)[k],
            forall|k: int|
                0 <= k < i ==> match target_of(old(ships)@, k, player.current_location) {
                    Some(target) => {
                        &&& (#[trigger] ships[k]) == old(ships)[k].navigated(
                            bearings[k] as int,
                            target,
                            orders[k],
                        )
                        &&& orders[k] ==> old(ships)[k].craft.ready_to_fire(target)
                        &&& old(ships)[k].is_ally_npc() && old(ships)[k].craft.ready_to_fire(
                            target,
                        ) ==> orders[k]
                    },
                    None => ships[k] == old(ships)[k] && !orders[k],
                },
        decreases ships.len() - i,
    {
        proof {
            lemma_targets_ignore_steering(old(ships)@, ships@, i as int, player.current_location);
        }
        let found = find_target(ships, i, &player.current_location);
        let order = match found {
            Some(target) => {
                assert(ships[i as int].wf());
                let ready = ships[i].craft.steer(bearings[i], &target);
                let ally = ships[i].captured.is_some();
                let roll: i64 = if ready && !ally {
                    random_between(0, UNIT)
                } else {
                    0
                };
                let order = npc_fires(ready, ally, roll);
                if ready && !order {
                    ships[i].craft.weapon_cooldown.reset();
                }
                order
            },
            None => false,
        };
        orders.push(order);
        proof {
            assert forall|k: int| 0 <= k < ships@.len() implies (#[trigger] ships@[k]).wf() by {
                if k != i {
                    assert(old(ships)@[k].wf() || k < i);
                }
            }
        }
        i = i + 1;
    }
    proof {
        lemma_ships_changed_in_place(old(ships)@, ships@);
        lemma_roles_kept_in_place(old(ships)@, ships@);
    }
    orders
}

/// Targets depend only on where the ships are and on which side they are, so
/// steering some of them does not change the target of any.
pub proof fn lemma_targets_ignore_steering(
    before: Seq<Ship>,
    after: Seq<Ship>,
    i: int,
    player: Point,
)
    requires
        before.len() == after.len(),
        0 <= i < before.len(),
        forall|k: int|
            0 <= k < before.len() ==> (#[trigger] after[k]).craft.position
                == before[k].craft.position && after[k].logic == before[k].logic
                && after[k].captured == before[k].captured && after[k].player == before[k].player,
    ensures
        target_of(after, i, player) == target_of(before, i, player),
{
    let from = before[i].craft.position;
    assert(after[i].craft.position == from);
    if has_hostile(before) {
        let w = choose|k: int| 0 <= k < before.len() && (#[trigger] before[k]).is_hostile_npc();
        assert(after[w].is_hostile_npc());
        let k = lemma_some_hostile_is_nearest(before, from, before.len() as int);
        assert(is_nearest_hostile(before, from, k));
        lemma_nearest_hostile_is_unique(before, from, k);
        assert(is_nearest_hostile(after, from, k)) by {
            assert(after[k].is_hostile_npc());
            assert forall|j: int|
                0 <= j < after.len() && (#[trigger] after[j]).is_hostile_npc() implies {
                ||| range_to(after, from, j) > range_to(after, from, k)
                ||| range_to(after, from, j) == range_to(after, from, k) && j >= k
            } by {
                assert(before[j].is_hostile_npc());
            }
        }
        lemma_nearest_hostile_is_unique(after, from, k);
    } else {
        if has_hostile(after) {
            let w = choose|k: int| 0 <= k < after.len() && (#[trigger] after[k]).is_hostile_npc();
            assert(before[w].is_hostile_npc());
        }
    }
}

} // verus!
