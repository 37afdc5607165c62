use space_combat::entity::{Captured, NPCLogic, PlayerMarker, Ship};
use space_combat::movement::DelayedPlayerLocation;
use space_combat::profile::ShipType;
use space_combat::spacecraft::Spacecraft;
use space_combat::steering::{
    cruise, find_target, handle_npc_logic, nearest_hostile, npc_aims, npc_fires, AGGRESSIVENESS,
    FAR_THRESHOLD, FIRE_THRESHOLD, NEAR_THRESHOLD,
};
use space_combat::units::Point;

fn hostile(entity: u64, x: i64, y: i64) -> Ship {
    let mut ship = Ship::new(entity, Spacecraft::from_template(ShipType::Ship1, Point { x, y }));
    ship.logic = Some(NPCLogic(Point { x: 0, y: 0 }));
    ship
}

fn ally(entity: u64, x: i64, y: i64) -> Ship {
    let mut ship = hostile(entity, x, y);
    ship.captured = Some(Captured);
    ship
}

fn player(entity: u64, x: i64, y: i64) -> Ship {
    let mut ship = Ship::new(entity, Spacecraft::from_template(ShipType::Ship2, Point { x, y }));
    ship.player = Some(PlayerMarker);
    ship
}

fn steering_by(x: i64, y: i64) -> DelayedPlayerLocation {
    let mut record = DelayedPlayerLocation::new();
    record.current_location = Point { x, y };
    record
}

#[test]
fn thresholds_have_their_values() {
    assert_eq!(FAR_THRESHOLD, 1_200_000);
    assert_eq!(NEAR_THRESHOLD, 500_000);
    assert_eq!(AGGRESSIVENESS, 15);
}

#[test]
fn cruise_is_zero_within_the_near_threshold() {
    assert_eq!(cruise(0, 50_000), 0);
    assert_eq!(cruise(499_999, 50_000), 0);
}

#[test]
fn cruise_is_fifteen_percent_of_the_top_speed_from_the_far_threshold() {
    assert_eq!(cruise(1_200_000, 50_000), 7_500);
    assert_eq!(cruise(5_000_000, 50_000), 7_500);
    assert_eq!(cruise(3_000_000_000, 115_000), 17_250);
}

#[test]
fn cruise_grows_with_the_distance_in_between() {
    // 0.5 / 0.7 of 50000 is 35714, fifteen percent of which is 5357
    assert_eq!(cruise(500_000, 50_000), 5_357);
    // 0.6 / 0.7 of 50000 is 42857, fifteen percent of which is 6428
    assert_eq!(cruise(600_000, 50_000), 6_428);
    assert_eq!(cruise(700_000, 50_000), 7_500);
    assert_eq!(cruise(699_999, 50_000), 7_499);
}

#[test]
fn cruise_never_exceeds_the_top_speed_share() {
    assert_eq!(cruise(1_000_000, 50_000), 7_500);
    assert_eq!(cruise(1_199_999, 50_000), 7_500);
    assert_eq!(cruise(1_199_999, 100_000), 15_000);
}

#[test]
fn steer_turns_towards_the_bearing_by_at_most_the_turn_speed() {
    let mut craft = Spacecraft::from_template(ShipType::Ship1, Point { x: 0, y: 0 });
    craft.rotate(123);
    let target = Point { x: 0, y: 5_000_000 };
    craft.steer(1_570_796, &target);
    assert_eq!(craft.heading, 500_123);
    assert_eq!(craft.delta_rotation, -500_000);
    craft.steer(1_570_796, &target);
    assert_eq!(craft.heading, 1_000_123);
    craft.steer(1_570_796, &target);
    craft.steer(1_570_796, &target);
    assert_eq!(craft.heading, 1_570_796);
    assert_eq!(craft.delta_rotation, -70_673);
    craft.steer(-3_141_592, &target);
    assert_eq!(craft.heading, 1_070_796);
    assert_eq!(craft.delta_rotation, 500_000);
}

#[test]
fn steer_sets_the_speed_by_the_distance_and_reports_readiness() {
    let mut craft = Spacecraft::from_template(ShipType::Ship1, Point { x: 0, y: 0 });
    assert!(!craft.steer(0, &Point { x: 0, y: 600_000 }));
    assert_eq!(craft.velocity, 6_428);
    craft.weapon_cooldown.tick(1_000_000_000);
    assert!(craft.steer(0, &Point { x: 0, y: 600_000 }));
    assert!(craft.steer(0, &Point { x: 0, y: 1_199_999 }));
    assert_eq!(craft.velocity, 7_500);
    assert!(!craft.steer(0, &Point { x: 0, y: 1_200_000 }));
    assert_eq!(craft.velocity, 7_500);
    assert!(craft.steer(0, &Point { x: 300_000, y: 0 }));
    assert_eq!(craft.velocity, 0);
}

#[test]
fn nearest_hostile_is_the_closest_and_the_first_among_equals() {
    let ships = vec![
        player(1, 0, 0),
        hostile(2, 0, 900_000),
        ally(3, 100, 0),
        hostile(4, 0, -500_000),
        hostile(5, 500_000, 0),
    ];
    assert_eq!(nearest_hostile(&ships, &Point { x: 0, y: 0 }), Some(3));
    assert_eq!(nearest_hostile(&ships, &Point { x: 0, y: 800_000 }), Some(1));
    assert_eq!(nearest_hostile(&vec![player(1, 0, 0), ally(3, 0, 0)], &Point { x: 0, y: 0 }), None);
    assert_eq!(nearest_hostile(&Vec::new(), &Point { x: 0, y: 0 }), None);
}

#[test]
fn targets_by_side() {
    let ships = vec![
        player(1, 0, 0),
        hostile(2, 2_000_000, 0),
        ally(3, 1_000_000, 0),
        hostile(4, 0, 700_000),
    ];
    let lagged = Point { x: -5, y: -6 };
    assert_eq!(find_target(&ships, 0, &lagged), None);
    assert_eq!(find_target(&ships, 1, &lagged), Some(lagged));
    assert_eq!(find_target(&ships, 2, &lagged), Some(Point { x: 2_000_000, y: 0 }));
    assert_eq!(find_target(&ships, 3, &lagged), Some(lagged));
    let alone = vec![ally(3, 0, 0), player(1, 0, 0)];
    assert_eq!(find_target(&alone, 0, &lagged), None);
}

#[test]
fn aims_point_from_the_ship_to_its_target_with_the_offset_of_a_hostile() {
    let mut off_aim = hostile(2, 1_000_000, 2_000_000);
    off_aim.logic = Some(NPCLogic(Point { x: 300, y: -200 }));
    let mut friend = ally(3, 0, 0);
    friend.logic = Some(NPCLogic(Point { x: 999, y: 999 }));
    let ships = vec![player(1, 0, 0), off_aim, friend];
    let aims = npc_aims(&ships, &steering_by(100_000, -100_000));
    assert_eq!(aims, vec![None, Some((-899_700, -2_100_200)), Some((1_000_000, 2_000_000))]);
}

#[test]
fn npc_logic_steers_the_ships_that_fly_themselves() {
    let mut ships = vec![player(1, 0, 0), hostile(2, 0, 3_000_000), ally(3, 3_000_000, 0)];
    ships[1].craft.rotate(77);
    let before_player = ships[0];
    let bearings = vec![9_999_999, 3_141_592, -785_398];
    let orders = handle_npc_logic(&mut ships, &steering_by(0, 0), &bearings);
    assert_eq!(orders, vec![false, false, false]);
    assert_eq!(ships[0], before_player);
    assert_eq!(ships[1].craft.heading, 500_077);
    assert_eq!(ships[1].craft.delta_rotation, -500_000);
    assert_eq!(ships[1].craft.velocity, 7_500);
    assert_eq!(ships[2].craft.heading, -500_000);
    assert_eq!(ships[2].craft.velocity, 7_500);
    assert_eq!(ships[1].craft.position, Point { x: 0, y: 3_000_000 });
}

#[test]
fn an_ally_in_range_with_a_loaded_gun_always_fires() {
    let mut ships = vec![player(1, 0, 0), hostile(2, 0, 1_000_000), ally(3, 0, 0)];
    ships[2].craft.weapon_cooldown.tick(1_000_000_000);
    for _ in 0..20 {
        let orders = handle_npc_logic(&mut ships, &steering_by(9_000_000, 9_000_000), &vec![0, 0, 0]);
        assert_eq!(orders, vec![false, false, true]);
        assert!(ships[2].craft.weapon_cooldown.finished());
    }
}

#[test]
fn a_hostile_in_range_fires_by_chance_or_reloads() {
    let mut fired = 0;
    let mut held = 0;
    for _ in 0..200 {
        let mut ships = vec![player(1, 0, 0), hostile(2, 0, 1_000_000)];
        ships[1].craft.weapon_cooldown.tick(1_000_000_000);
        let orders = handle_npc_logic(&mut ships, &steering_by(0, 0), &vec![0, 0]);
        if orders[1] {
            fired += 1;
            assert!(ships[1].craft.weapon_cooldown.finished());
        } else {
            held += 1;
            assert!(!ships[1].craft.weapon_cooldown.finished());
            assert_eq!(ships[1].craft.weapon_cooldown.elapsed(), 0);
        }
    }
    assert!(fired > 0);
    assert!(held > 0);
}

#[test]
fn the_draw_decides_for_a_hostile_ship_only() {
    assert_eq!(FIRE_THRESHOLD, 500_000);
    assert!(npc_fires(true, false, 500_001));
    assert!(!npc_fires(true, false, 500_000));
    assert!(!npc_fires(true, false, 0));
    assert!(npc_fires(true, true, 0));
    assert!(!npc_fires(false, true, 999_999));
    assert!(!npc_fires(false, false, 999_999));
}

#[test]
fn nobody_fires_out_of_range_or_with_an_empty_gun() {
    let mut ships = vec![hostile(2, 0, 1_200_000), hostile(4, 0, 100), ally(3, 5_000_000, 0)];
    ships[0].craft.weapon_cooldown.tick(1_000_000_000);
    ships[2].craft.weapon_cooldown.tick(1_000_000_000);
    for _ in 0..20 {
        let orders = handle_npc_logic(&mut ships, &steering_by(0, 0), &vec![0, 0, 0]);
        assert_eq!(orders, vec![false, false, false]);
    }
    assert!(ships[0].craft.weapon_cooldown.finished());
}
