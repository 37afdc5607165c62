use space_combat::entity::{Bullet, BulletBundle, Entities, NPCLogic, PlayerMarker, Ship};
use space_combat::profile::ShipType;
use space_combat::spacecraft::Spacecraft;
use space_combat::timer::{Timer, TimerMode};
use space_combat::units::{Direction, Point, UNIT};
use space_combat::weapons::{
    kill_far_bullets, move_bullets, ship_fire, spawn_bullet, tick_bullet_immunity_time,
    BULLET_RANGE, IMMUNITY_TIME, MAX_JITTER, MUZZLE_DISTANCE,
};

const NORTH: Direction = Direction { sin: 0, cos: UNIT };
const EAST: Direction = Direction { sin: UNIT, cos: 0 };

fn craft(ship_type: ShipType) -> Spacecraft {
    let mut craft = Spacecraft::from_template(ship_type, Point { x: 1_000_000, y: 2_000_000 });
    craft.weapon_cooldown.tick(5_000_000_000);
    craft
}

fn shot_at(x: i64, y: i64, entity: u64) -> BulletBundle {
    BulletBundle {
        entity,
        bullet: Bullet {
            heading: 0,
            position: Point { x, y },
            velocity: 15_000,
            shooter: 1,
            immunity_time: Timer::new(IMMUNITY_TIME, TimerMode::Once),
            player_shot: true,
        },
    }
}

#[test]
fn weapon_constants() {
    assert_eq!(MUZZLE_DISTANCE, 120_000);
    assert_eq!(IMMUNITY_TIME, 250_000_000);
    assert_eq!(MAX_JITTER, 400_000);
    assert_eq!(BULLET_RANGE, 2_000_000);
}

#[test]
fn bullet_of_the_player_flies_ahead_along_the_heading() {
    let mut parent = craft(ShipType::Ship1);
    parent.rotate(250_000);
    parent.velocity = 20_000;
    let bullet = Bullet::fire(&parent, 7, NORTH, 0, true, 0);
    assert_eq!(
        bullet,
        Bullet {
            heading: 250_000,
            position: Point { x: 1_000_000, y: 2_120_000 },
            velocity: 35_000,
            shooter: 7,
            immunity_time: Timer::new(250_000_000, TimerMode::Once),
            player_shot: true,
        }
    );
}

#[test]
fn muzzle_distance_grows_with_the_scale_of_the_ship() {
    let bullet = Bullet::fire(&craft(ShipType::Ship2), 7, NORTH, 0, true, 0);
    assert_eq!(bullet.position, Point { x: 1_000_000, y: 2_144_000 });
    let big = Bullet::fire(&craft(ShipType::Ship6), 7, EAST, 0, true, 0);
    assert_eq!(big.position, Point { x: 1_288_000, y: 2_000_000 });
}

#[test]
fn lateral_offset_is_perpendicular_to_the_heading() {
    let left = Bullet::fire(&craft(ShipType::Ship1), 7, NORTH, 30_000, true, 0);
    assert_eq!(left.position, Point { x: 970_000, y: 2_120_000 });
    let right = Bullet::fire(&craft(ShipType::Ship1), 7, NORTH, -30_000, true, 0);
    assert_eq!(right.position, Point { x: 1_030_000, y: 2_120_000 });
    let east = Bullet::fire(&craft(ShipType::Ship1), 7, EAST, 30_000, true, 0);
    assert_eq!(east.position, Point { x: 1_120_000, y: 2_030_000 });
}

#[test]
fn a_reversing_ship_adds_nothing_to_the_speed_of_its_shot() {
    let mut parent = craft(ShipType::Ship5);
    parent.velocity = -10_000;
    assert_eq!(Bullet::fire(&parent, 7, NORTH, 0, false, 0).velocity, 45_000);
    parent.velocity = 0;
    assert_eq!(Bullet::fire(&parent, 7, NORTH, 0, false, 0).velocity, 45_000);
    parent.velocity = 115_000;
    assert_eq!(Bullet::fire(&parent, 7, NORTH, 0, false, 0).velocity, 160_000);
}

#[test]
fn jitter_is_added_to_the_heading() {
    let mut parent = craft(ShipType::Ship1);
    parent.rotate(1_000_000);
    let bullet = Bullet::fire(&parent, 7, NORTH, 0, false, -399_999);
    assert_eq!(bullet.heading, 600_001);
    assert!(!bullet.player_shot);
}

#[test]
fn spawn_bullet_appends_under_the_next_handle_and_reloads() {
    let mut parent = craft(ShipType::Ship1);
    let mut bullets = vec![shot_at(0, 0, 3)];
    let mut ids = Entities { next: 40 };
    spawn_bullet(&mut bullets, &mut ids, &mut parent, 9, NORTH, 0, true);
    assert_eq!(bullets.len(), 2);
    assert_eq!(bullets[0], shot_at(0, 0, 3));
    assert_eq!(bullets[1].entity, 40);
    assert_eq!(bullets[1].bullet, Bullet::fire(&craft(ShipType::Ship1), 9, NORTH, 0, true, 0));
    assert_eq!(ids.next, 41);
    assert!(!parent.weapon_cooldown.finished());
    assert_eq!(parent.weapon_cooldown.elapsed(), 0);
}

#[test]
fn shots_of_other_ships_stray_within_the_jitter_and_not_always_alike() {
    let mut lowest = i64::MAX;
    let mut highest = i64::MIN;
    for _ in 0..200 {
        let mut parent = craft(ShipType::Ship1);
        let mut bullets = Vec::new();
        let mut ids = Entities::new();
        spawn_bullet(&mut bullets, &mut ids, &mut parent, 9, NORTH, 0, false);
        let heading = bullets[0].bullet.heading;
        assert!(-400_000 <= heading && heading < 400_000);
        assert_eq!(bullets[0].bullet, Bullet::fire(&craft(ShipType::Ship1), 9, NORTH, 0, false, heading));
        lowest = lowest.min(heading);
        highest = highest.max(heading);
    }
    assert!(lowest < highest);
}

#[test]
fn single_gun_ships_fire_one_shot_from_the_centre() {
    for ship_type in [ShipType::Ship1, ShipType::Ship3, ShipType::Ship5] {
        let mut parent = craft(ship_type);
        let mut bullets = Vec::new();
        let mut ids = Entities { next: 5 };
        ship_fire(&mut bullets, &mut ids, &mut parent, 9, NORTH, true);
        assert_eq!(bullets.len(), 1);
        assert_eq!(bullets[0].entity, 5);
        assert_eq!(bullets[0].bullet, Bullet::fire(&craft(ship_type), 9, NORTH, 0, true, 0));
        assert_eq!(ids.next, 6);
        assert_eq!(parent.weapon_cooldown.elapsed(), 0);
        assert!(!parent.weapon_cooldown.finished());
    }
}

#[test]
fn ship2_fires_two_shots_side_by_side() {
    let mut parent = craft(ShipType::Ship2);
    let mut bullets = Vec::new();
    let mut ids = Entities { next: 5 };
    ship_fire(&mut bullets, &mut ids, &mut parent, 9, NORTH, true);
    assert_eq!(bullets.len(), 2);
    assert_eq!(bullets[0].entity, 5);
    assert_eq!(bullets[1].entity, 6);
    assert_eq!(bullets[0].bullet.position, Point { x: 1_030_000, y: 2_144_000 });
    assert_eq!(bullets[1].bullet.position, Point { x: 970_000, y: 2_144_000 });
    assert_eq!(bullets[0].bullet.heading, bullets[1].bullet.heading);
    assert_eq!(ids.next, 7);
}

#[test]
fn ship4_and_ship6_fire_three_shots() {
    for ship_type in [ShipType::Ship4, ShipType::Ship6] {
        let mut parent = craft(ship_type);
        let mut bullets = Vec::new();
        let mut ids = Entities::new();
        ship_fire(&mut bullets, &mut ids, &mut parent, 9, NORTH, true);
        assert_eq!(bullets.len(), 3);
        let reference = craft(ship_type);
        assert_eq!(bullets[0].bullet, Bullet::fire(&reference, 9, NORTH, -50_000, true, 0));
        assert_eq!(bullets[1].bullet, Bullet::fire(&reference, 9, NORTH, 0, true, 0));
        assert_eq!(bullets[2].bullet, Bullet::fire(&reference, 9, NORTH, 50_000, true, 0));
        assert_eq!(bullets[0].bullet.position.x, 1_050_000);
        assert_eq!(bullets[2].bullet.position.x, 950_000);
        assert_eq!(
            vec![bullets[0].entity, bullets[1].entity, bullets[2].entity],
            vec![0, 1, 2]
        );
        assert_eq!(ids.next, 3);
    }
}

#[test]
fn every_shot_starts_within_its_immunity_window() {
    let mut parent = craft(ShipType::Ship4);
    let mut bullets = Vec::new();
    let mut ids = Entities::new();
    ship_fire(&mut bullets, &mut ids, &mut parent, 9, EAST, false);
    for bundle in &bullets {
        assert!(!bundle.bullet.immunity_time.finished());
        assert_eq!(bundle.bullet.immunity_time.duration(), 250_000_000);
        assert_eq!(bundle.bullet.shooter, 9);
        assert!(!bundle.bullet.player_shot);
    }
}

#[test]
fn immunity_runs_out_after_a_quarter_second() {
    let mut bullets = vec![shot_at(0, 0, 1), shot_at(5, 5, 2)];
    tick_bullet_immunity_time(249_999_999, &mut bullets);
    assert!(!bullets[0].bullet.immunity_time.finished());
    tick_bullet_immunity_time(1, &mut bullets);
    assert!(bullets[0].bullet.immunity_time.finished());
    assert!(bullets[1].bullet.immunity_time.finished());
    assert_eq!(bullets[1].bullet.position, Point { x: 5, y: 5 });
}

#[test]
fn bullets_fly_by_their_speed() {
    let mut bullets = vec![shot_at(0, 0, 1), shot_at(100, 100, 2)];
    bullets[1].bullet.velocity = 45_000;
    move_bullets(&mut bullets, &vec![NORTH, EAST]);
    assert_eq!(bullets[0].bullet.position, Point { x: 0, y: 15_000 });
    assert_eq!(bullets[1].bullet.position, Point { x: 45_100, y: 100 });
    move_bullets(&mut bullets, &vec![NORTH, EAST]);
    assert_eq!(bullets[0].bullet.position, Point { x: 0, y: 30_000 });
    assert_eq!(bullets[0].bullet.velocity, 15_000);
}

#[test]
fn bullets_beyond_two_units_from_the_player_are_culled() {
    let mut player = Ship::new(1, Spacecraft::from_template(ShipType::Ship2, Point { x: 1_000_000, y: 0 }));
    player.player = Some(PlayerMarker);
    let mut other = Ship::new(2, Spacecraft::from_template(ShipType::Ship1, Point { x: 0, y: 0 }));
    other.logic = Some(NPCLogic(Point { x: 0, y: 0 }));
    let ships = vec![other, player];
    let mut bullets = vec![
        shot_at(3_000_000, 0, 10),
        shot_at(3_000_001, 0, 11),
        shot_at(-1_000_001, 0, 12),
        shot_at(1_000_000, -2_000_000, 13),
        shot_at(2_414_214, 1_414_214, 14),
        shot_at(1_000_000, 0, 15),
    ];
    kill_far_bullets(&mut bullets, &ships);
    let left: Vec<u64> = bullets.iter().map(|b| b.entity).collect();
    assert_eq!(left, vec![10, 13, 15]);
}

#[test]
fn no_bullet_is_culled_without_exactly_one_player() {
    let mut bullets = vec![shot_at(900_000_000, 0, 10)];
    kill_far_bullets(&mut bullets, &Vec::new());
    assert_eq!(bullets.len(), 1);
}
