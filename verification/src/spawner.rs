//! The enemy wave spawner: the threat budget, the choice of the next ship
//! type, and the spawning of enemies around the player.

use vstd::prelude::*;
use crate::chance::random_between;
use crate::entity::{
    fleet_wf, get_single, is_single, BulletBundle, Entities, NPCLogic, Selector, Ship,
};
use crate::handles::{lemma_new_ship_stays_sound, tables_wf};
use crate::roles::{lemma_roles_after_spawn, roles_wf};
use crate::profile::ShipType;
use crate::score::PlayerScore;
use crate::spacecraft::Spacecraft;
use crate::units::{floor_sqrt, Point};

verus! {

/// The threat budget that is carried over from tick to tick.
#[derive(Clone, Copy, PartialEq, Eq, Structural, Debug)]
pub struct CarryoverEnemyPoints(pub i32);

/// The threat budget at the start of a game.
pub const STARTING_POINTS: i32 = 10;

/// An enemy appears at least this far from the player along each axis, in
/// micro-units.
pub const SPAWN_NEAR: i64 = 1_200_000;

/// An enemy appears less than this far from the player along each axis, in
/// micro-units.
pub const SPAWN_FAR: i64 = 2_500_000;

/// The aim of an enemy is off by less than this along each axis, in
/// micro-units.
pub const AIM_SPREAD: i64 = 300_000;

/// The largest fleet whose threat can be summed up in 32 bits.
pub const MAX_FLEET: usize = 42_949_672;

/// What is spawned for an enemy: the ship and its steering state.
#[derive(Clone, Copy, PartialEq, Eq, Structural, Debug)]
pub struct EnemySpacecraftBundle {
    pub spacecraft: Spacecraft,
    pub logic: NPCLogic,
}

/// The cost of a ship type in threat points.
pub open spec fn cost_of(ship: ShipType) -> int {
    match ship {
        ShipType::Ship1 => 4,
        ShipType::Ship2 => 7,
        ShipType::Ship3 => 15,
        ShipType::Ship4 => 21,
        ShipType::Ship5 => 31,
        ShipType::Ship6 => 50,
    }
}

/// The share of the fleet that a ship type should make up, in percent.
pub open spec fn target_share(ship: ShipType) -> int {
    match ship {
        ShipType::Ship1 => 44,
        ShipType::Ship2 => 25,
        ShipType::Ship3 => 15,
        ShipType::Ship4 => 10,
        ShipType::Ship5 => 5,
        ShipType::Ship6 => 1,
    }
}

/// The place of a ship type in the order from the cheapest to the dearest.
pub open spec fn rank(ship: ShipType) -> int {
    match ship {
        ShipType::Ship1 => 0,
        ShipType::Ship2 => 1,
        ShipType::Ship3 => 2,
        ShipType::Ship4 => 3,
        ShipType::Ship5 => 4,
        ShipType::Ship6 => 5,
    }
}

/// The total cost of a fleet.
pub open spec fn total_cost(fleet: Seq<ShipType>) -> int
    decreases fleet.len(),
{
    if fleet.len() == 0 {
        0
    } else {
        total_cost(fleet.drop_last()) + cost_of(fleet.last())
    }
}

/// The number of ships of the type `ship` in a fleet.
pub open spec fn count_of(fleet: Seq<ShipType>, ship: ShipType) -> int
    decreases fleet.len(),
{
    if fleet.len() == 0 {
        0
    } else {
        count_of(fleet.drop_last(), ship) + if fleet.last() == ship {
            1int
        } else {
            0int
        }
    }
}

/// By how much the share of a ship type in a fleet exceeds its target share,
/// in hundredths of a ship: negative where the fleet is short of the type.
pub open spec fn surplus(fleet: Seq<ShipType>, ship: ShipType) -> int {
    100 * count_of(fleet, ship) - target_share(ship) * fleet.len()
}

/// The ship type `ship` is the one that the fleet is shortest of, and the
/// cheapest among those it is equally short of.
pub open spec fn is_most_wanted(fleet: Seq<ShipType>, ship: ShipType) -> bool {
    forall|other: ShipType|
        {
            ||| surplus(fleet, ship) < #[trigger] surplus(fleet, other)
            ||| surplus(fleet, ship) == surplus(fleet, other) && rank(ship) <= rank(other)
        }
}

/// The ship type that a fleet wants most.
pub open spec fn most_wanted(fleet: Seq<ShipType>) -> ShipType {
    choose|ship: ShipType| is_most_wanted(fleet, ship)
}

/// The cost of a ship type in threat points.
pub fn points_for_ship(ship: &ShipType) -> (points: i32)
    ensures
        points == cost_of(*ship),
{
    match ship {
        ShipType::Ship1 => 4,
        ShipType::Ship2 => 7,
        ShipType::Ship3 => 15,
        ShipType::Ship4 => 21,
        ShipType::Ship5 => 31,
        ShipType::Ship6 => 50,
    }
}

/// The cost of every ship lies between that of the cheapest and that of the
/// dearest.
pub proof fn lemma_total_cost_bounds(fleet: Seq<ShipType>)
    ensures
        4 * fleet.len() <= total_cost(fleet) <= 50 * fleet.len(),
    decreases fleet.len(),
{
    if fleet.len() > 0 {
        lemma_total_cost_bounds(fleet.drop_last());
    }
}

/// The threat that a fleet amounts to: the sum of the costs of its ships.
pub fn points_currently_deployed(ships: &Vec<ShipType>) -> (points: i32)
    requires
        ships.len() <= MAX_FLEET,
    ensures
        points == total_cost(ships@),
{
    let mut points: i32 = 0;
    let mut i: usize = 0;
    while i < ships.len()
        invariant
            i <= ships.len(),
            ships.len() <= MAX_FLEET,
            points == total_cost(ships@.take(i as int)),
        decreases ships.len() - i,
    {
        proof {
            assert(ships@.take(i + 1).drop_last() =~= ships@.take(i as int));
            assert(ships@.take(i + 1).last() == ships@[i as int]);
            lemma_total_cost_bounds(ships@.take(i as int));
        }
        points = points + points_for_ship(&ships[i]);
        i = i + 1;
    }
    proof {
        assert(ships@.take(ships@.len() as int) =~= ships@);
    }
    points
}

/// The number of ships of the type `ship` in a fleet.
fn count_ships(ships: &Vec<ShipType>, ship: ShipType) -> (count: usize)
    ensures
        count == count_of(ships@, ship),
        count <= ships.len(),
{
    let mut count: usize = 0;
    let mut i: usize = 0;
    while i < ships.len()
        invariant
            i <= ships.len(),
            count <= i,
            count == count_of(ships@.take(i as int), ship),
        decreases ships.len() - i,
    {
        proof {
            assert(ships@.take(i + 1).drop_last() =~= ships@.take(i as int));
            assert(ships@.take(i + 1).last() == ships@[i as int]);
        }
        if ships[i] == ship {
            count = count + 1;
        }
        i = i + 1;
    }
    proof {
        assert(ships@.take(ships@.len() as int) =~= ships@);
    }
    count
}

/// Computes [`surplus`].
fn surplus_of(ships: &Vec<ShipType>, ship: ShipType, share: i128) -> (value: i128)
    requires
        share == target_share(ship),
    ensures
        value == surplus(ships@, ship),
{
    let count: i128 = count_ships(ships, ship) as i128;
    let total: i128 = ships.len() as i128;
    assert(0 <= count <= total <= u64::MAX);
    assert(0 <= share <= 44);
    assert(share * total <= 44 * total) by (nonlinear_arith)
        requires
            0 <= share <= 44,
            0 <= total,
    ;
    assert(share * total >= 0) by (nonlinear_arith)
        requires
            0 <= share,
            0 <= total,
    ;
    100 * count - share * total
}

/// Takes stock of a fleet and recommends the type of the next ship: the one
/// whose share of the fleet falls furthest short of its target share, and
/// the cheapest among several that fall equally short. An empty fleet is
/// short of every type alike.
pub fn take_ship_stock(ships: &Vec<ShipType>) -> (next: ShipType)
    ensures
        is_most_wanted(ships@, next),
        next == most_wanted(ships@),
{
    let mut next = ShipType::Ship1;
    let mut least: i128 = surplus_of(ships, ShipType::Ship1, 44);
    let s2: i128 = surplus_of(ships, ShipType::Ship2, 25);
    if s2 < least {
        next = ShipType::Ship2;
        least = s2;
    }
    let s3: i128 = surplus_of(ships, ShipType::Ship3, 15);
    if s3 < least {
        next = ShipType::Ship3;
        least = s3;
    }
    let s4: i128 = surplus_of(ships, ShipType::Ship4, 10);
    if s4 < least {
        next = ShipType::Ship4;
        least = s4;
    }
    let s5: i128 = surplus_of(ships, ShipType::Ship5, 5);
    if s5 < least {
        next = ShipType::Ship5;
        least = s5;
    }
    let s6: i128 = surplus_of(ships, ShipType::Ship6, 1);
    if s6 < least {
        next = ShipType::Ship6;
        least = s6;
    }
    proof {
        assert forall|other: ShipType|
            {
                ||| surplus(ships@, next) < #[trigger] surplus(ships@, other)
                ||| surplus(ships@, next) == surplus(ships@, other) && rank(next) <= rank(other)
            } by {
            match other {
                ShipType::Ship1 => {},
                ShipType::Ship2 => {},
                ShipType::Ship3 => {},
                ShipType::Ship4 => {},
                ShipType::Ship5 => {},
                ShipType::Ship6 => {},
            }
        }
        assert(is_most_wanted(ships@, next));
        lemma_most_wanted_is_unique(ships@, next, most_wanted(ships@));
    }
    next
}

/// Only one ship type is the most wanted.
pub proof fn lemma_most_wanted_is_unique(fleet: Seq<ShipType>, a: ShipType, b: ShipType)
    requires
        is_most_wanted(fleet, a),
        is_most_wanted(fleet, b),
    ensures
        a == b,
{
    assert(surplus(fleet, a) <= surplus(fleet, b));
    assert(surplus(fleet, b) <= surplus(fleet, a));
}

/// Every fleet wants some type most: the one that [`most_wanted`] names.
pub proof fn lemma_some_type_is_most_wanted(fleet: Seq<ShipType>)
    ensures
        is_most_wanted(fleet, most_wanted(fleet)),
{
    let first = ShipType::Ship1;
    let second = if surplus(fleet, ShipType::Ship2) < surplus(fleet, first) {
        ShipType::Ship2
    } else {
        first
    };
    let third = if surplus(fleet, ShipType::Ship3) < surplus(fleet, second) {
        ShipType::Ship3
    } else {
        second
    };
    let fourth = if surplus(fleet, ShipType::Ship4) < surplus(fleet, third) {
        ShipType::Ship4
    } else {
        third
    };
    let fifth = if surplus(fleet, ShipType::Ship5) < surplus(fleet, fourth) {
        ShipType::Ship5
    } else {
        fourth
    };
    let sixth = if surplus(fleet, ShipType::Ship6) < surplus(fleet, fifth) {
        ShipType::Ship6
    } else {
        fifth
    };
    assert forall|other: ShipType|
        {
            ||| surplus(fleet, sixth) < #[trigger] surplus(fleet, other)
            ||| surplus(fleet, sixth) == surplus(fleet, other) && rank(sixth) <= rank(other)
        } by {
        match other {
            ShipType::Ship1 => {},
            ShipType::Ship2 => {},
            ShipType::Ship3 => {},
            ShipType::Ship4 => {},
            ShipType::Ship5 => {},
            ShipType::Ship6 => {},
        }
    }
    assert(is_most_wanted(fleet, sixth));
}

/// An empty fleet wants the cheapest type.
pub proof fn lemma_empty_fleet_wants_the_cheapest()
    ensures
        is_most_wanted(Seq::<ShipType>::empty(), ShipType::Ship1),
{
    let fleet = Seq::<ShipType>::empty();
    assert forall|other: ShipType|
        {
            ||| surplus(fleet, ShipType::Ship1) < #[trigger] surplus(fleet, other)
            ||| surplus(fleet, ShipType::Ship1) == surplus(fleet, other) && rank(ShipType::Ship1)
                <= rank(other)
        } by {
        assert(surplus(fleet, other) == 0);
    }
}

/// The threat points that one tick adds to the budget: four tenths of the
/// player's distance from the origin in units, plus a twentieth of the
/// seconds survived, plus a fiftieth of the score, all times a quarter and
/// rounded up. With the distance in micro-units and the time in nanoseconds
/// that is the sum below over eighty thousand million.
pub open spec fn threat_income_spec(distance: int, survived: int, score: int) -> int {
    (8_000 * distance + survived + 400_000_000 * score + 79_999_999_999) / 80_000_000_000
}

/// Computes [`threat_income_spec`].
pub fn threat_income(distance: i64, survived: u64, score: u32) -> (income: i32)
    requires
        0 <= distance <= 3_000_000_000,
    ensures
        income == threat_income_spec(distance as int, survived as int, score as int),
        0 <= income <= 300_000_000,
{
    let sum: u128 = 8_000 * (distance as u128) + survived as u128 + 400_000_000 * (score as u128)
        + 79_999_999_999;
    (sum / 80_000_000_000) as i32
}

/// The types of the enemies in the ship table, in the order of the table.
pub open spec fn enemy_types(ships: Seq<Ship>) -> Seq<ShipType>
    decreases ships.len(),
{
    if ships.len() == 0 {
        Seq::empty()
    } else if ships.last().is_enemy() {
        enemy_types(ships.drop_last()).push(ships.last().craft.ship_type)
    } else {
        enemy_types(ships.drop_last())
    }
}

/// There are no more enemies than ships.
pub proof fn lemma_enemies_are_ships(ships: Seq<Ship>)
    ensures
        enemy_types(ships).len() <= ships.len(),
    decreases ships.len(),
{
    if ships.len() > 0 {
        lemma_enemies_are_ships(ships.drop_last());
    }
}

/// Lists the types of the enemies in the ship table.
pub fn deployed_types(ships: &Vec<Ship>) -> (fleet: Vec<ShipType>)
    ensures
        fleet@ == enemy_types(ships@),
        fleet.len() <= ships.len(),
{
    let mut fleet: Vec<ShipType> = Vec::new();
    let mut i: usize = 0;
    while i < ships.len()
        invariant
            i <= ships.len(),
            fleet@ == enemy_types(ships@.take(i as int)),
        decreases ships.len() - i,
    {
        proof {
            assert(ships@.take(i + 1).drop_last() =~= ships@.take(i as int));
            assert(ships@.take(i + 1).last() == ships@[i as int]);
        }
        if ships[i].player.is_none() && ships[i].captured.is_none() {
            fleet.push(ships[i].craft.ship_type);
        }
        i = i + 1;
    }
    proof {
        assert(ships@.take(ships@.len() as int) =~= ships@);
        lemma_enemies_are_ships(ships@);
    }
    fleet
}

/// Whether an enemy may appear `offset` away from the player along an axis:
/// between the near and the far spawn distance, to either side.
pub open spec fn in_spawn_band(offset: int) -> bool {
    (-SPAWN_FAR <= offset < -SPAWN_NEAR) || (SPAWN_NEAR <= offset < SPAWN_FAR)
}

/// Whether the aim of an enemy may be off by `offset` along an axis.
pub open spec fn in_aim_band(offset: int) -> bool {
    -AIM_SPREAD <= offset < AIM_SPREAD
}

impl EnemySpacecraftBundle {
    /// The bundle of an enemy of the given type that is launched at `pos`
    /// with the aim offset `offset`.
    pub open spec fn launched(ship_type: ShipType, pos: Point, offset: Point) -> Self {
        EnemySpacecraftBundle {
            spacecraft: Spacecraft::launched(ship_type, pos),
            logic: NPCLogic(offset),
        }
    }

    /// The ship that the bundle becomes under the handle `entity`: a ship
    /// that steers itself and carries no other mark.
    pub open spec fn spawned(self, entity: u64) -> Ship {
        Ship { logic: Some(self.logic), ..Ship::bare(entity, self.spacecraft) }
    }

    /// Creates the bundle of an enemy with a given aim offset.
    pub fn with_aim(ship_type: ShipType, pos: Point, offset: Point) -> (bundle: Self)
        ensures
            bundle == Self::launched(ship_type, pos, offset),
    {
        EnemySpacecraftBundle {
            spacecraft: Spacecraft::from_template(ship_type, pos),
            logic: NPCLogic(offset),
        }
    }

    /// Creates the bundle of an enemy of the given type at `pos`, with a
    /// random aim offset.
    pub fn create_ship(ship_type: ShipType, pos: Point) -> (bundle: Self)
        ensures
            bundle.spacecraft == Spacecraft::launched(ship_type, pos),
            in_aim_band(bundle.logic.0.x as int),
            in_aim_band(bundle.logic.0.y as int),
    {
        let x: i64 = random_between(-AIM_SPREAD, AIM_SPREAD);
        let y: i64 = random_between(-AIM_SPREAD, AIM_SPREAD);
        Self::with_aim(ship_type, pos, Point { x, y })
    }

    /// Turns the bundle into a ship under the handle `entity`.
    pub fn into_ship(self, entity: u64) -> (ship: Ship)
        ensures
            ship == self.spawned(entity),
    {
        let mut ship = Ship::new(entity, self.spacecraft);
        ship.logic = Some(self.logic);
        ship
    }
}

/// Whether `ship` is an enemy of the given type as it is spawned under the
/// handle `entity` around a player at `base`: launched within the spawn band
/// of the player along both axes, with an aim offset within the aim band.
pub open spec fn is_spawned_enemy(
    ship: Ship,
    entity: u64,
    ship_type: ShipType,
    base: Point,
) -> bool {
    exists|dx: int, dy: int, offset: Point|
        {
            &&& in_spawn_band(dx)
            &&& in_spawn_band(dy)
            &&& in_aim_band(offset.x as int)
            &&& in_aim_band(offset.y as int)
            &&& ship == (#[trigger] EnemySpacecraftBundle::launched(
                ship_type,
                base.shifted(dx, dy),
                offset,
            )).spawned(entity)
        }
}

/// Draws a distance within the spawn band, to either side.
fn random_spawn_offset() -> (offset: i64)
    ensures
        in_spawn_band(offset as int),
{
    let below: i64 = random_between(-SPAWN_FAR, -SPAWN_NEAR);
    let above: i64 = random_between(SPAWN_NEAR, SPAWN_FAR);
    if random_between(0, 2) == 0 {
        below
    } else {
        above
    }
}

/// Spawns one enemy of the given type at a random place around `base_pos`.
pub fn spawn_enemy(ships: &mut Vec<Ship>, ids: &mut Entities, base_pos: Point, ship_type: ShipType)
    requires
        old(ids).next < u64::MAX,
    ensures
        final(ships)@.len() == old(ships)@.len() + 1,
        final(ships)@.drop_last() == old(ships)@,
        is_spawned_enemy(final(ships)@.last(), old(ids).next, ship_type, base_pos),
        final(ids).next == old(ids).next + 1,
        fleet_wf(old(ships)@) ==> fleet_wf(final(ships)@),
        roles_wf(old(ships)@) ==> roles_wf(final(ships)@),
        forall|bullets: Seq<BulletBundle>| #[trigger]
            tables_wf(old(ships)@, bullets, *old(ids)) ==> tables_wf(
                final(ships)@,
                bullets,
                *final(ids),
            ),
{
    let dx: i64 = random_spawn_offset();
    let dy: i64 = random_spawn_offset();
    let pos = base_pos.shift(dx, dy);
    let bundle = EnemySpacecraftBundle::create_ship(ship_type, pos);
    let entity: u64 = ids.spawn();
    let ship = bundle.into_ship(entity);
    ships.push(ship);
    proof {
        assert(ships@.drop_last() =~= old(ships)@);
        assert(ship == EnemySpacecraftBundle::launched(
            ship_type,
            base_pos.shifted(dx as int, dy as int),
            bundle.logic.0,
        ).spawned(entity));
        assert forall|bullets: Seq<BulletBundle>| #[trigger]
            tables_wf(old(ships)@, bullets, *old(ids)) implies tables_wf(ships@, bullets, *ids) by {
            lemma_new_ship_stays_sound(old(ships)@, bullets, *old(ids), ship);
        }
        lemma_roles_after_spawn(old(ships)@, ship);
        if fleet_wf(old(ships)@) {
            assert forall|k: int| 0 <= k < ships@.len() implies (#[trigger] ships@[k]).wf() by {
                if k < old(ships)@.len() {
                    assert(old(ships)@[k].wf());
                }
            }
        }
    }
}

/// The number of enemies of cost `cost` that a budget of `budget` pays for:
/// one as long as the budget exceeds the cost.
pub open spec fn spawn_count(budget: int, cost: int) -> int
    decreases budget,
{
    if cost > 0 && budget > cost {
        1 + spawn_count(budget - cost, cost)
    } else {
        0
    }
}

/// The budget once the tick's income is added and the threat that is
/// deployed is taken off, the player being the ship at index `p`.
pub open spec fn budget_after_income(
    ships: Seq<Ship>,
    p: int,
    score: PlayerScore,
    budget: int,
) -> int {
    budget + threat_income_spec(
        floor_sqrt(ships[p].craft.position.distance_squared_spec(Point { x: 0, y: 0 })),
        score.survived_time.elapsed as int,
        score.score as int,
    ) - total_cost(enemy_types(ships))
}

/// Spawner budget: with no threat deployed, the budget gains exactly the
/// tick's income, which the player's distance from the origin, the time
/// survived and the score determine.
pub proof fn lemma_income_without_enemies(ships: Seq<Ship>, p: int, score: PlayerScore, budget: int)
    requires
        enemy_types(ships).len() == 0,
    ensures
        budget_after_income(ships, p, score, budget) - budget == threat_income_spec(
            floor_sqrt(ships[p].craft.position.distance_squared_spec(Point { x: 0, y: 0 })),
            score.survived_time.elapsed as int,
            score.score as int,
        ),
{
}

/// One tick of the spawner. Without exactly one player's ship nothing
/// happens. Otherwise the budget takes the tick's income and gives up the
/// threat that is deployed; then, as long as the budget exceeds the cost of
/// the type that the fleet as it was at the start of the tick wants most, an
/// enemy of that type is spawned around the player and paid for.
pub fn spawn_ships(
    ships: &mut Vec<Ship>,
    ids: &mut Entities,
    score: &PlayerScore,
    spawn_points: &mut CarryoverEnemyPoints,
)
    requires
        old(ships).len() <= MAX_FLEET,
        old(ids).next <= u64::MAX - i32::MAX,
        forall|p: int|
            is_single(old(ships)@, Selector::Player, p) ==> {
                &&& (#[trigger] old(ships)[p]).craft.position.wf()
                &&& i32::MIN <= budget_after_income(
                    old(ships)@,
                    p,
                    *score,
                    old(spawn_points).0 as int,
                ) <= i32::MAX
            },
    ensures
        forall|p: int|
            is_single(old(ships)@, Selector::Player, p) ==> {
                let next = most_wanted(enemy_types(old(ships)@));
                let budget = budget_after_income(
                    old(ships)@,
                    p,
                    *score,
                    old(spawn_points).0 as int,
                );
                let count = spawn_count(budget, cost_of(next));
                &&& final(spawn_points).0 == budget - count * cost_of(next)
                &&& final(ships)@.len() == old(ships)@.len() + count
                &&& final(ships)@.take(old(ships)@.len() as int) == old(ships)@
                &&& final(ids).next == old(ids).next + count
                &&& forall|k: int|
                    0 <= k < count ==> is_spawned_enemy(
                        #[trigger] final(ships)@[old(ships)@.len() + k],
                        (old(ids).next + k) as u64,
                        next,
                        old(ships)[p].craft.position,
                    )
            },
        (forall|p: int| !is_single(old(ships)@, Selector::Player, p)) ==> {
            &&& final(ships)@ == old(ships)@
            &&& *final(spawn_points) == *old(spawn_points)
            &&& *final(ids) == *old(ids)
        },
        fleet_wf(old(ships)@) ==> fleet_wf(final(ships)@),
        roles_wf(old(ships)@) ==> roles_wf(final(ships)@),
        forall|bullets: Seq<BulletBundle>| #[trigger]
            tables_wf(old(ships)@, bullets, *old(ids)) ==> tables_wf(
                final(ships)@,
                bullets,
                *final(ids),
            ),
{
    let found = get_single(ships, Selector::Player);
    let p: usize = match found {
        Some(p) => p,
        None => {
            return ;
        },
    };
    proof {
        assert forall|k: int| is_single(old(ships)@, Selector::Player, k) implies k == p by {
            assert(old(ships)@[p as int].selected_by(Selector::Player));
        }
    }
    let player = ships[p].craft.position;
    let fleet = deployed_types(ships);
    let income: i32 = threat_income(
        player.distance(&Point::origin()),
        score.survived_time.elapsed(),
        score.score,
    );
    let deployed: i32 = points_currently_deployed(&fleet);
    let balance: i64 = spawn_points.0 as i64 + income as i64 - deployed as i64;
    spawn_points.0 = balance as i32;
    let next_ship = take_ship_stock(&fleet);
    let points_req: i32 = points_for_ship(&next_ship);
    let ghost budget = spawn_points.0 as int;
    let ghost first = ids.next as int;
    let mut spawned: usize = 0;
    proof {
        assert(ships@.take(old(ships)@.len() as int) =~= old(ships)@);
    }
    while spawn_points.0 > points_req
        invariant
            points_req == cost_of(next_ship),
            spawn_points.0 == budget - spawned * points_req,
            spawn_count(budget, points_req as int) == spawned + spawn_count(
                spawn_points.0 as int,
                points_req as int,
            ),
            ships@.len() == old(ships)@.len() + spawned,
            ships@.take(old(ships)@.len() as int) == old(ships)@,
            ids.next == first + spawned,
            first <= u64::MAX - i32::MAX,
            spawned * 4 <= budget - spawn_points.0,
            budget <= i32::MAX,
            forall|k: int|
                0 <= k < spawned ==> is_spawned_enemy(
                    #[trigger] ships@[old(ships)@.len() + k],
                    (first + k) as u64,
                    next_ship,
                    player,
                ),
            fleet_wf(old(ships)@) ==> fleet_wf(ships@),
            forall|bullets: Seq<BulletBundle>| #[trigger]
                tables_wf(old(ships)@, bullets, *old(ids)) ==> tables_wf(ships@, bullets, *ids),
            roles_wf(old(ships)@) ==> roles_wf(ships@),
        decreases spawn_points.0,
    {
        let ghost before = ships@;
        spawn_enemy(ships, ids, player, next_ship);
        spawn_points.0 = spawn_points.0 - points_req;
        proof {
            assert(spawned * points_req + points_req == (spawned + 1) * points_req)
                by (nonlinear_arith);
            assert(ships@.drop_last() == before);
            assert(ships@.take(old(ships)@.len() as int) =~= before.take(
                old(ships)@.len() as int,
            ));
            assert forall|k: int| 0 <= k < spawned + 1 implies is_spawned_enemy(
                #[trigger] ships@[old(ships)@.len() + k],
                (first + k) as u64,
                next_ship,
                player,
            ) by {
                if k < spawned {
                    assert(ships@[old(ships)@.len() + k] == before[old(ships)@.len() + k]);
                } else {
                    assert(ships@[old(ships)@.len() + k] == ships@.last());
                }
            }
        }
        spawned = spawned + 1;
    }
}

} // verus!
