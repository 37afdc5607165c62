use space_combat::collision::{
    collide_bullets, find_ship, has_immunity, is_shot_by_player, none_pending, remove_bullet,
    resolve_collision, strike, CollisionEvent, COLLISION_DAMAGE,
};
use space_combat::entity::{
    Bullet, BulletBundle, ExplosionMarker,
    MyFateLiesInTheBalanceAndIWouldReallyAppreciateIfIfYouDidntKillMeMarker, NPCLogic,
    PlayerMarker, Ship,
};
use space_combat::profile::ShipType;
use space_combat::score::PlayerScore;
use space_combat::spacecraft::Spacecraft;
use space_combat::timer::{Timer, TimerMode};
use space_combat::units::Point;

fn enemy(entity: u64, ship_type: ShipType) -> Ship {
    let mut ship = Ship::new(entity, Spacecraft::from_template(ship_type, Point { x: 0, y: 0 }));
    ship.logic = Some(NPCLogic(Point { x: 0, y: 0 }));
    ship
}

fn player(entity: u64, ship_type: ShipType) -> Ship {
    let mut ship = Ship::new(entity, Spacecraft::from_template(ship_type, Point { x: 0, y: 0 }));
    ship.player = Some(PlayerMarker);
    ship
}

fn bullet(entity: u64, shooter: u64, player_shot: bool, immune: bool) -> BulletBundle {
    let mut immunity_time = Timer::new(250_000_000, TimerMode::Once);
    if !immune {
        immunity_time.tick(250_000_000);
    }
    BulletBundle {
        entity,
        bullet: Bullet {
            heading: 0,
            position: Point { x: 0, y: 0 },
            velocity: 15_000,
            shooter,
            immunity_time,
            player_shot,
        },
    }
}

#[test]
fn collision_damage_is_one() {
    assert_eq!(COLLISION_DAMAGE, 1);
}

#[test]
fn lookups_find_what_is_listed() {
    let ships = vec![player(1, ShipType::Ship2), enemy(2, ShipType::Ship1), enemy(2, ShipType::Ship3)];
    assert_eq!(find_ship(&ships, 1), Some(0));
    assert_eq!(find_ship(&ships, 2), Some(1));
    assert_eq!(find_ship(&ships, 3), None);
    assert_eq!(find_ship(&Vec::new(), 1), None);
    let bullets = vec![bullet(10, 1, true, true), bullet(11, 2, false, false)];
    assert!(is_shot_by_player(&bullets, 10));
    assert!(!is_shot_by_player(&bullets, 11));
    assert!(!is_shot_by_player(&bullets, 12));
    assert!(has_immunity(&bullets, 1));
    assert!(!has_immunity(&bullets, 2));
    assert!(!has_immunity(&bullets, 3));
}

#[test]
fn none_pending_sees_a_pending_ship() {
    let mut ships = vec![player(1, ShipType::Ship2), enemy(2, ShipType::Ship1)];
    assert!(none_pending(&ships));
    ships[1].pending =
        Some(MyFateLiesInTheBalanceAndIWouldReallyAppreciateIfIfYouDidntKillMeMarker);
    assert!(!none_pending(&ships));
    assert!(none_pending(&Vec::new()));
}

#[test]
fn remove_bullet_takes_out_the_named_bullet_only() {
    let mut bullets = vec![
        bullet(10, 1, true, false),
        bullet(11, 1, true, false),
        bullet(12, 2, false, false),
    ];
    remove_bullet(&mut bullets, 11);
    assert_eq!(bullets, vec![bullet(10, 1, true, false), bullet(12, 2, false, false)]);
    remove_bullet(&mut bullets, 99);
    assert_eq!(bullets.len(), 2);
}

#[test]
fn player_shot_that_is_survived_damages_scores_and_is_spent() {
    let mut ships = vec![player(1, ShipType::Ship2), enemy(2, ShipType::Ship4)];
    let mut bullets = vec![bullet(10, 1, true, false)];
    let mut score = PlayerScore::new();
    resolve_collision(&mut ships, &mut bullets, &mut score, 2, 10);
    assert_eq!(ships[1].craft.health, 5);
    assert_eq!(ships[1].explosion, Some(ExplosionMarker));
    assert_eq!(ships[1].pending, None);
    assert_eq!(score.score, 5);
    assert!(bullets.is_empty());
    assert_eq!(ships[0], player(1, ShipType::Ship2));
}

#[test]
fn the_order_of_the_pair_does_not_matter_for_a_bullet_hit() {
    let mut ships = vec![player(1, ShipType::Ship2), enemy(2, ShipType::Ship4)];
    let mut bullets = vec![bullet(10, 1, true, false)];
    let mut score = PlayerScore::new();
    resolve_collision(&mut ships, &mut bullets, &mut score, 10, 2);
    assert_eq!(ships[1].craft.health, 5);
    assert_eq!(ships[1].explosion, Some(ExplosionMarker));
    assert_eq!(score.score, 5);
    assert!(bullets.is_empty());
}

#[test]
fn lethal_player_shot_spares_the_ship_for_a_decision() {
    let mut ships = vec![player(1, ShipType::Ship2), enemy(2, ShipType::Ship1)];
    ships[1].craft.health = 1;
    let mut bullets = vec![bullet(10, 1, true, false)];
    let mut score = PlayerScore::new();
    resolve_collision(&mut ships, &mut bullets, &mut score, 2, 10);
    assert_eq!(ships[1].craft.health, 1);
    assert_eq!(
        ships[1].pending,
        Some(MyFateLiesInTheBalanceAndIWouldReallyAppreciateIfIfYouDidntKillMeMarker)
    );
    assert_eq!(ships[1].explosion, Some(ExplosionMarker));
    assert_eq!(score.score, 15);
    assert!(bullets.is_empty());
    assert_eq!(ships.len(), 2);
}

#[test]
fn enemy_shot_damages_without_score_and_may_kill() {
    let mut ships = vec![player(1, ShipType::Ship1), enemy(2, ShipType::Ship1)];
    ships[0].craft.health = 1;
    let mut bullets = vec![bullet(10, 2, false, false)];
    let mut score = PlayerScore::new();
    resolve_collision(&mut ships, &mut bullets, &mut score, 10, 1);
    assert_eq!(ships[0].craft.health, 0);
    assert_eq!(ships[0].pending, None);
    assert_eq!(ships[0].explosion, Some(ExplosionMarker));
    assert_eq!(score.score, 0);
    assert!(bullets.is_empty());
}

#[test]
fn fresh_bullet_does_not_harm_its_shooter() {
    let mut ships = vec![player(1, ShipType::Ship2), enemy(2, ShipType::Ship1)];
    let before = ships.clone();
    let mut bullets = vec![bullet(10, 2, false, true)];
    let mut score = PlayerScore::new();
    resolve_collision(&mut ships, &mut bullets, &mut score, 2, 10);
    assert_eq!(ships, before);
    assert_eq!(bullets, vec![bullet(10, 2, false, true)]);
    assert_eq!(score.score, 0);
    resolve_collision(&mut ships, &mut bullets, &mut score, 10, 2);
    assert_eq!(ships, before);
    assert_eq!(bullets.len(), 1);
}

#[test]
fn bullet_harms_its_shooter_once_the_window_has_closed() {
    let mut ships = vec![enemy(2, ShipType::Ship1)];
    let mut bullets = vec![bullet(10, 2, false, false)];
    let mut score = PlayerScore::new();
    resolve_collision(&mut ships, &mut bullets, &mut score, 2, 10);
    assert_eq!(ships[0].craft.health, 1);
    assert!(bullets.is_empty());
}

#[test]
fn ship_with_a_fresh_bullet_in_flight_is_immune_to_other_shots_too() {
    let mut ships = vec![player(1, ShipType::Ship2), enemy(2, ShipType::Ship1)];
    let mut bullets = vec![bullet(10, 2, false, true), bullet(11, 1, true, false)];
    let mut score = PlayerScore::new();
    resolve_collision(&mut ships, &mut bullets, &mut score, 2, 11);
    assert_eq!(ships[1].craft.health, 2);
    assert_eq!(bullets.len(), 2);
    assert_eq!(score.score, 0);
}

#[test]
fn stale_shooter_handle_gives_no_immunity_to_anyone() {
    let mut ships = vec![enemy(2, ShipType::Ship1)];
    let mut bullets = vec![bullet(10, 77, false, true)];
    let mut score = PlayerScore::new();
    resolve_collision(&mut ships, &mut bullets, &mut score, 2, 10);
    assert_eq!(ships[0].craft.health, 1);
    assert!(bullets.is_empty());
}

#[test]
fn two_ships_that_collide_both_take_a_plain_hit() {
    let mut ships = vec![player(1, ShipType::Ship2), enemy(2, ShipType::Ship1)];
    let mut bullets = vec![bullet(10, 1, true, false)];
    let mut score = PlayerScore::new();
    resolve_collision(&mut ships, &mut bullets, &mut score, 1, 2);
    assert_eq!(ships[0].craft.health, 2);
    assert_eq!(ships[1].craft.health, 1);
    assert_eq!(ships[0].explosion, Some(ExplosionMarker));
    assert_eq!(ships[1].explosion, Some(ExplosionMarker));
    assert_eq!(score.score, 0);
    assert_eq!(bullets.len(), 1);
}

#[test]
fn two_bullets_that_collide_fly_on() {
    let mut ships = vec![player(1, ShipType::Ship2)];
    let mut bullets = vec![bullet(10, 1, true, false), bullet(11, 2, false, false)];
    let mut score = PlayerScore::new();
    resolve_collision(&mut ships, &mut bullets, &mut score, 10, 11);
    assert_eq!(bullets.len(), 2);
    assert_eq!(ships[0], player(1, ShipType::Ship2));
}

#[test]
fn nothing_is_resolved_while_a_ship_awaits_a_decision() {
    let mut ships = vec![player(1, ShipType::Ship2), enemy(2, ShipType::Ship1), enemy(3, ShipType::Ship1)];
    ships[1].pending =
        Some(MyFateLiesInTheBalanceAndIWouldReallyAppreciateIfIfYouDidntKillMeMarker);
    let before = ships.clone();
    let mut bullets = vec![bullet(10, 1, true, false)];
    let mut score = PlayerScore::new();
    resolve_collision(&mut ships, &mut bullets, &mut score, 3, 10);
    assert_eq!(ships, before);
    assert_eq!(bullets.len(), 1);
    assert_eq!(score.score, 0);
}

#[test]
fn strike_reports_whether_the_ship_took_the_hit() {
    let mut ships = vec![enemy(2, ShipType::Ship1)];
    let bullets = vec![bullet(10, 2, false, true)];
    let mut score = PlayerScore::new();
    assert!(!strike(&mut ships, &bullets, &mut score, 2, true));
    assert!(!strike(&mut ships, &bullets, &mut score, 3, true));
    let none: Vec<BulletBundle> = Vec::new();
    assert!(strike(&mut ships, &none, &mut score, 2, false));
    assert_eq!(ships[0].craft.health, 1);
}

#[test]
fn batch_is_resolved_in_order_and_stops_changing_things_once_a_ship_is_spared() {
    let mut ships = vec![
        player(1, ShipType::Ship2),
        enemy(2, ShipType::Ship1),
        enemy(3, ShipType::Ship1),
    ];
    let mut bullets = vec![
        bullet(10, 1, true, false),
        bullet(11, 1, true, false),
        bullet(12, 1, true, false),
        bullet(13, 1, true, false),
    ];
    let mut score = PlayerScore::new();
    let events = vec![
        CollisionEvent::Started(2, 10),
        CollisionEvent::Stopped(2, 10),
        CollisionEvent::Started(11, 2),
        CollisionEvent::Started(3, 12),
        CollisionEvent::Started(3, 13),
    ];
    collide_bullets(&events, &mut ships, &mut bullets, &mut score);
    assert_eq!(ships[1].craft.health, 1);
    assert_eq!(
        ships[1].pending,
        Some(MyFateLiesInTheBalanceAndIWouldReallyAppreciateIfIfYouDidntKillMeMarker)
    );
    assert_eq!(ships[2].craft.health, 2);
    assert_eq!(ships[2].pending, None);
    assert_eq!(score.score, 5 + 15);
    assert_eq!(bullets, vec![bullet(12, 1, true, false), bullet(13, 1, true, false)]);
}

#[test]
fn stopped_events_and_empty_batches_change_nothing() {
    let mut ships = vec![player(1, ShipType::Ship2), enemy(2, ShipType::Ship1)];
    let before = ships.clone();
    let mut bullets = vec![bullet(10, 1, true, false)];
    let mut score = PlayerScore::new();
    collide_bullets(&Vec::new(), &mut ships, &mut bullets, &mut score);
    collide_bullets(&vec![CollisionEvent::Stopped(2, 10)], &mut ships, &mut bullets, &mut score);
    assert_eq!(ships, before);
    assert_eq!(bullets.len(), 1);
    assert_eq!(score.score, 0);
}

#[test]
fn six_player_shots_capture_a_ship_of_six_points_exactly_once() {
    let mut ships = vec![player(1, ShipType::Ship2), enemy(2, ShipType::Ship4)];
    let mut score = PlayerScore::new();
    for shot in 0..6u64 {
        let mut bullets = vec![bullet(100 + shot, 1, true, false)];
        assert_eq!(ships[1].pending, None);
        collide_bullets(
            &vec![CollisionEvent::Started(100 + shot, 2)],
            &mut ships,
            &mut bullets,
            &mut score,
        );
        assert!(bullets.is_empty());
    }
    assert_eq!(ships[1].craft.health, 1);
    assert!(ships[1].pending.is_some());
    assert_eq!(score.score, 40);
}
