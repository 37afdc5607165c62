use space_combat::profile::ShipType;
use space_combat::spacecraft::Spacecraft;
use space_combat::ui::{update_shield_ui, update_throttle_ui, update_weapon_ui};
use space_combat::units::Point;

fn craft(ship_type: ShipType) -> Spacecraft {
    Spacecraft::from_template(ship_type, Point { x: 0, y: 0 })
}

#[test]
fn weapon_indicator_shows_the_quarter_of_the_reload() {
    let mut ship = craft(ShipType::Ship1);
    assert_eq!(update_weapon_ui(&ship), 0);
    ship.weapon_cooldown.tick(249_999_999);
    assert_eq!(update_weapon_ui(&ship), 0);
    ship.weapon_cooldown.tick(1);
    assert_eq!(update_weapon_ui(&ship), 1);
    ship.weapon_cooldown.tick(250_000_000);
    assert_eq!(update_weapon_ui(&ship), 2);
    ship.weapon_cooldown.tick(250_000_000);
    assert_eq!(update_weapon_ui(&ship), 3);
    ship.weapon_cooldown.tick(249_999_999);
    assert_eq!(update_weapon_ui(&ship), 3);
    ship.weapon_cooldown.tick(1);
    assert_eq!(update_weapon_ui(&ship), 4);
}

#[test]
fn weapon_indicator_of_a_timer_at_its_end_that_has_not_been_ticked() {
    let mut ship = craft(ShipType::Ship1);
    ship.weapon_cooldown.set_elapsed(1_000_000_000);
    assert_eq!(update_weapon_ui(&ship), 0);
}

#[test]
fn throttle_indicator_counts_sevenths_of_the_slowest_top_speed() {
    let mut ship = craft(ShipType::Ship1);
    assert_eq!(update_throttle_ui(&ship), 0);
    ship.velocity = -15_000;
    assert_eq!(update_throttle_ui(&ship), 0);
    ship.velocity = 1;
    assert_eq!(update_throttle_ui(&ship), 1);
    ship.velocity = 7_142;
    assert_eq!(update_throttle_ui(&ship), 1);
    ship.velocity = 7_143;
    assert_eq!(update_throttle_ui(&ship), 2);
    ship.velocity = 50_000;
    assert_eq!(update_throttle_ui(&ship), 7);
    ship.velocity = 115_000;
    assert_eq!(update_throttle_ui(&ship), 17);
}

#[test]
fn shield_icons_show_the_health_out_of_the_maximum() {
    let mut ship = craft(ShipType::Ship3);
    assert_eq!(update_shield_ui(&ship), vec![true, true, true, true, true]);
    ship.health = 2;
    assert_eq!(update_shield_ui(&ship), vec![true, true, false, false, false]);
    ship.health = 0;
    assert_eq!(update_shield_ui(&ship), vec![false; 5]);
    ship.health = -40;
    assert_eq!(update_shield_ui(&ship), vec![false; 5]);
    ship.health = 9;
    assert_eq!(update_shield_ui(&ship), vec![true; 5]);
    assert_eq!(update_shield_ui(&craft(ShipType::Ship6)).len(), 10);
}
