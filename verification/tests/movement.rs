use space_combat::entity::{NPCLogic, PlayerMarker, Ship};
use space_combat::movement::{
    move_spaceships, tick_timer, update_delayed_location, DelayedPlayerLocation,
    LOCATION_SAMPLES, LOCATION_WINDOW,
};
use space_combat::profile::ShipType;
use space_combat::score::PlayerScore;
use space_combat::spacecraft::Spacecraft;
use space_combat::units::{Direction, Point, UNIT};

fn player_at(x: i64, y: i64) -> Ship {
    let mut ship = Ship::new(1, Spacecraft::from_template(ShipType::Ship2, Point { x, y }));
    ship.player = Some(PlayerMarker);
    ship
}

fn enemy_at(x: i64, y: i64) -> Ship {
    let mut ship = Ship::new(2, Spacecraft::from_template(ShipType::Ship1, Point { x, y }));
    ship.logic = Some(NPCLogic(Point { x: 0, y: 0 }));
    ship
}

fn clock(now: u64) -> PlayerScore {
    let mut score = PlayerScore::new();
    score.survived_time.tick(now);
    score
}

#[test]
fn ships_move_by_their_speed_along_their_heading() {
    let mut ships = vec![player_at(0, 0), enemy_at(1_000_000, 1_000_000)];
    ships[0].craft.velocity = 65_000;
    ships[1].craft.velocity = 7_500;
    let facings = vec![Direction { sin: 0, cos: UNIT }, Direction { sin: -UNIT, cos: 0 }];
    move_spaceships(&mut ships, &facings, 16_000_000);
    assert_eq!(ships[0].craft.position, Point { x: 0, y: 65_000 });
    assert_eq!(ships[1].craft.position, Point { x: 992_500, y: 1_000_000 });
    assert_eq!(ships[0].craft.velocity, 65_000);
    assert_eq!(ships[0].craft.heading, 0);
}

#[test]
fn a_ship_at_rest_stays_where_it_is() {
    let mut ships = vec![player_at(5, 6)];
    move_spaceships(&mut ships, &vec![Direction { sin: UNIT, cos: 0 }], 1);
    assert_eq!(ships[0].craft.position, Point { x: 5, y: 6 });
}

#[test]
fn movement_advances_the_shield_timer_and_not_the_gun() {
    let mut ships = vec![player_at(0, 0)];
    ships[0].craft.shield_recharge.reset();
    let facings = vec![Direction { sin: 0, cos: UNIT }];
    move_spaceships(&mut ships, &facings, 1_000_000_000);
    assert_eq!(ships[0].craft.shield_recharge.elapsed(), 1_000_000_000);
    assert!(!ships[0].craft.shield_recharge.finished());
    assert_eq!(ships[0].craft.weapon_cooldown.elapsed(), 0);
    move_spaceships(&mut ships, &facings, 2_000_000_000);
    assert!(ships[0].craft.shield_recharge.just_finished());
}

#[test]
fn tick_timer_reloads_the_guns_and_nothing_else() {
    let mut ships = vec![player_at(0, 0), enemy_at(1, 1)];
    tick_timer(1_000_000_000, &mut ships);
    assert_eq!(ships[0].craft.weapon_cooldown.elapsed(), 1_000_000_000);
    assert!(!ships[0].craft.weapon_cooldown.finished());
    assert!(ships[1].craft.weapon_cooldown.finished());
    assert_eq!(ships[0].craft.shield_recharge.elapsed(), 3_000_000_000);
    assert!(!ships[0].craft.shield_recharge.finished());
    tick_timer(300_000_000, &mut ships);
    assert!(ships[0].craft.weapon_cooldown.just_finished());
    assert!(!ships[1].craft.weapon_cooldown.just_finished());
}

#[test]
fn new_record_steers_by_the_origin() {
    let record = DelayedPlayerLocation::new();
    assert!(record.buffered_locations.is_empty());
    assert_eq!(record.current_location, Point { x: 0, y: 0 });
    assert_eq!(LOCATION_WINDOW, 2_000_000_000);
    assert_eq!(LOCATION_SAMPLES, 10);
}

#[test]
fn first_sample_becomes_the_position_to_steer_by() {
    let mut record = DelayedPlayerLocation::new();
    let ships = vec![enemy_at(9, 9), player_at(100, 200)];
    update_delayed_location(&mut record, &clock(5), &ships);
    assert_eq!(record.buffered_locations, vec![(Point { x: 100, y: 200 }, 5)]);
    assert_eq!(record.current_location, Point { x: 100, y: 200 });
}

#[test]
fn the_oldest_fresh_sample_is_steered_by() {
    let mut record = DelayedPlayerLocation::new();
    let mut now = 0;
    for step in 0..5 {
        let ships = vec![player_at(step * 10, 0)];
        update_delayed_location(&mut record, &clock(now), &ships);
        now += 600_000_000;
    }
    // samples at 0.0, 0.6, 1.2, 1.8, 2.4 s: at 2.4 s the first is older than two seconds
    assert_eq!(record.buffered_locations.len(), 4);
    assert_eq!(record.buffered_locations[0], (Point { x: 10, y: 0 }, 600_000_000));
    assert_eq!(record.current_location, Point { x: 10, y: 0 });
}

#[test]
fn a_sample_exactly_two_seconds_old_is_kept() {
    let mut record = DelayedPlayerLocation::new();
    update_delayed_location(&mut record, &clock(1_000), &vec![player_at(1, 1)]);
    update_delayed_location(&mut record, &clock(2_000_001_000), &vec![player_at(2, 2)]);
    assert_eq!(record.buffered_locations.len(), 2);
    assert_eq!(record.current_location, Point { x: 1, y: 1 });
    update_delayed_location(&mut record, &clock(2_000_001_001), &vec![player_at(3, 3)]);
    assert_eq!(record.buffered_locations.len(), 2);
    assert_eq!(record.current_location, Point { x: 2, y: 2 });
}

#[test]
fn the_buffer_takes_no_more_than_eleven_samples() {
    let mut record = DelayedPlayerLocation::new();
    for step in 0..20u64 {
        update_delayed_location(&mut record, &clock(step), &vec![player_at(step as i64, 0)]);
    }
    assert_eq!(record.buffered_locations.len(), 11);
    assert_eq!(record.buffered_locations[10], (Point { x: 10, y: 0 }, 10));
    assert_eq!(record.current_location, Point { x: 0, y: 0 });
}

#[test]
fn without_a_player_the_buffer_stays_and_its_front_is_steered_by() {
    let mut record = DelayedPlayerLocation::new();
    record.buffered_locations.push((Point { x: 4, y: 4 }, 0));
    update_delayed_location(&mut record, &clock(10_000_000_000), &vec![enemy_at(1, 1)]);
    assert_eq!(record.buffered_locations, vec![(Point { x: 4, y: 4 }, 0)]);
    assert_eq!(record.current_location, Point { x: 4, y: 4 });
    let mut empty = DelayedPlayerLocation::new();
    empty.current_location = Point { x: 8, y: 8 };
    update_delayed_location(&mut empty, &clock(1), &Vec::new());
    assert_eq!(empty.current_location, Point { x: 8, y: 8 });
}
