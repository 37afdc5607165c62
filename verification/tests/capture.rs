use space_combat::capture::{
    check_for_usage_decision, pause_for_captured_ship, remove_overly_long_tag, swap_ships,
    GameState, ShipUsageDecision, ShipUsageImageMarker, LETHAL_DAMAGE,
};
use space_combat::collision::{can_all_absorb, can_pending_absorb};
use space_combat::entity::{
    get_single, Captured, MyFateLiesInTheBalanceAndIWouldReallyAppreciateIfIfYouDidntKillMeMarker,
    NPCLogic, PlayerMarker, Selector, Ship, SwapToShipMarker,
};
use space_combat::profile::ShipType;
use space_combat::score::PlayerScore;
use space_combat::spacecraft::Spacecraft;
use space_combat::units::Point;

fn enemy(entity: u64, ship_type: ShipType) -> Ship {
    let mut ship = Ship::new(entity, Spacecraft::from_template(ship_type, Point { x: 0, y: 0 }));
    ship.logic = Some(NPCLogic(Point { x: 7, y: -7 }));
    ship
}

fn player(entity: u64) -> Ship {
    let mut ship =
        Ship::new(entity, Spacecraft::from_template(ShipType::Ship2, Point { x: 0, y: 0 }));
    ship.player = Some(PlayerMarker);
    ship
}

fn pending(entity: u64, ship_type: ShipType) -> Ship {
    let mut ship = enemy(entity, ship_type);
    ship.craft.health = 1;
    ship.pending = Some(MyFateLiesInTheBalanceAndIWouldReallyAppreciateIfIfYouDidntKillMeMarker);
    ship
}

#[test]
fn get_single_finds_the_only_match() {
    let ships = vec![enemy(1, ShipType::Ship1), player(2), pending(3, ShipType::Ship1)];
    assert_eq!(get_single(&ships, Selector::Player), Some(1));
    assert_eq!(get_single(&ships, Selector::Pilot), Some(1));
    assert_eq!(get_single(&ships, Selector::Pending), Some(2));
    assert_eq!(get_single(&ships, Selector::SwapTarget), None);
}

#[test]
fn get_single_refuses_none_and_several() {
    let ships = vec![player(1), player(2)];
    assert_eq!(get_single(&ships, Selector::Player), None);
    assert_eq!(get_single(&Vec::new(), Selector::Player), None);
    let three = vec![player(1), enemy(5, ShipType::Ship1), player(2), player(3)];
    assert_eq!(get_single(&three, Selector::Player), None);
}

#[test]
fn pause_happens_when_one_ship_awaits_a_decision() {
    let ships = vec![player(1), pending(2, ShipType::Ship1)];
    let mut state = GameState::Regular;
    let mut prompt = None;
    pause_for_captured_ship(&ships, &mut state, &mut prompt);
    assert_eq!(state, GameState::Paused);
    assert_eq!(prompt, Some(ShipUsageImageMarker));
}

#[test]
fn no_pause_without_a_pending_ship() {
    let ships = vec![player(1), enemy(2, ShipType::Ship1)];
    let mut state = GameState::Regular;
    let mut prompt = None;
    pause_for_captured_ship(&ships, &mut state, &mut prompt);
    assert_eq!(state, GameState::Regular);
    assert_eq!(prompt, None);
}

#[test]
fn destroy_decision_clears_the_mark_the_prompt_and_the_pause_and_deals_lethal_damage() {
    let mut ships = vec![player(1), pending(2, ShipType::Ship3), enemy(3, ShipType::Ship1)];
    let mut decision = Some(ShipUsageDecision::Destroy);
    let mut prompt = Some(ShipUsageImageMarker);
    let mut state = GameState::Paused;
    let mut score = PlayerScore::new();
    score.score = 15;
    check_for_usage_decision(&mut decision, &mut ships, &mut prompt, &mut state, &mut score);
    assert_eq!(ships[1].pending, None);
    assert_eq!(ships[1].craft.health, 1 - 100);
    assert_eq!(LETHAL_DAMAGE, 100);
    assert_eq!(prompt, None);
    assert_eq!(decision, None);
    assert_eq!(state, GameState::Regular);
    assert_eq!(score.score, 15);
    assert_eq!(ships[0], player(1));
    assert_eq!(ships[2], enemy(3, ShipType::Ship1));
}

#[test]
fn destroy_asks_room_for_the_damage_of_the_pending_ship_only() {
    let mut weak = enemy(3, ShipType::Ship1);
    weak.craft.health = i32::MIN + 5;
    let ships = vec![player(1), pending(2, ShipType::Ship3), weak];
    assert!(can_pending_absorb(&ships, 100));
    assert!(!can_all_absorb(&ships, 100));
    let mut doomed = pending(4, ShipType::Ship3);
    doomed.craft.health = i32::MIN + 99;
    assert!(!can_pending_absorb(&vec![doomed], 100));
    assert!(can_pending_absorb(&vec![doomed], 99));
    let mut ships = ships;
    let mut decision = Some(ShipUsageDecision::Destroy);
    let mut prompt = Some(ShipUsageImageMarker);
    let mut state = GameState::Paused;
    let mut score = PlayerScore::new();
    check_for_usage_decision(&mut decision, &mut ships, &mut prompt, &mut state, &mut score);
    assert_eq!(ships[1].craft.health, -99);
    assert_eq!(ships[2].craft.health, i32::MIN + 5);
}

#[test]
fn keep_decision_makes_an_ally() {
    let mut ships = vec![player(1), pending(2, ShipType::Ship3)];
    let mut decision = Some(ShipUsageDecision::Keep);
    let mut prompt = Some(ShipUsageImageMarker);
    let mut state = GameState::Paused;
    let mut score = PlayerScore::new();
    check_for_usage_decision(&mut decision, &mut ships, &mut prompt, &mut state, &mut score);
    assert_eq!(ships[1].pending, None);
    assert_eq!(ships[1].captured, Some(Captured));
    assert_eq!(ships[1].craft.health, 1);
    assert_eq!(ships[1].logic, Some(NPCLogic(Point { x: 7, y: -7 })));
    assert_eq!(state, GameState::Regular);
    assert_eq!(prompt, None);
}

#[test]
fn transfer_decision_marks_the_ship_for_boarding() {
    let mut ships = vec![player(1), pending(2, ShipType::Ship3)];
    let mut decision = Some(ShipUsageDecision::Transfer);
    let mut prompt = Some(ShipUsageImageMarker);
    let mut state = GameState::Paused;
    let mut score = PlayerScore::new();
    check_for_usage_decision(&mut decision, &mut ships, &mut prompt, &mut state, &mut score);
    assert_eq!(ships[1].pending, None);
    assert_eq!(ships[1].swap_to, Some(SwapToShipMarker));
    assert_eq!(ships[1].player, None);
    assert_eq!(state, GameState::Regular);
}

#[test]
fn nothing_is_decided_without_a_decision() {
    let mut ships = vec![player(1), pending(2, ShipType::Ship3)];
    let before = ships.clone();
    let mut decision = None;
    let mut prompt = Some(ShipUsageImageMarker);
    let mut state = GameState::Paused;
    let mut score = PlayerScore::new();
    check_for_usage_decision(&mut decision, &mut ships, &mut prompt, &mut state, &mut score);
    assert_eq!(ships, before);
    assert_eq!(prompt, Some(ShipUsageImageMarker));
    assert_eq!(state, GameState::Paused);
}

#[test]
fn swap_moves_the_player_to_the_marked_ship() {
    let mut target = enemy(2, ShipType::Ship5);
    target.swap_to = Some(SwapToShipMarker);
    let mut ships = vec![player(1), target, enemy(3, ShipType::Ship1)];
    assert_eq!(swap_ships(&mut ships), Some(1));
    assert_eq!(ships[0].player, None);
    assert_eq!(ships[0].logic, Some(NPCLogic(Point { x: 0, y: 0 })));
    assert_eq!(ships[1].player, Some(PlayerMarker));
    assert_eq!(ships[1].logic, None);
    assert_eq!(ships[1].swap_to, None);
    assert_eq!(ships[1].craft, Spacecraft::from_template(ShipType::Ship5, Point { x: 0, y: 0 }));
    assert_eq!(ships[2], enemy(3, ShipType::Ship1));
    assert_eq!(get_single(&ships, Selector::Player), Some(1));
}

#[test]
fn swap_needs_a_target_and_a_player() {
    let mut ships = vec![player(1), enemy(2, ShipType::Ship1)];
    let before = ships.clone();
    assert_eq!(swap_ships(&mut ships), None);
    assert_eq!(ships, before);
    let mut target = enemy(2, ShipType::Ship5);
    target.swap_to = Some(SwapToShipMarker);
    let mut no_player = vec![target];
    assert_eq!(swap_ships(&mut no_player), None);
    assert_eq!(no_player[0].swap_to, Some(SwapToShipMarker));
}

#[test]
fn swap_onto_the_players_own_ship_keeps_it_the_players() {
    let mut ship = player(1);
    ship.swap_to = Some(SwapToShipMarker);
    let mut ships = vec![ship];
    assert_eq!(swap_ships(&mut ships), Some(0));
    assert_eq!(ships[0].player, Some(PlayerMarker));
    assert_eq!(ships[0].logic, None);
    assert_eq!(ships[0].swap_to, None);
}

#[test]
fn the_tag_can_be_removed_without_a_decision() {
    let mut ships = vec![player(1), pending(2, ShipType::Ship3)];
    remove_overly_long_tag(&mut ships);
    assert_eq!(ships[1].pending, None);
    assert_eq!(ships[1].craft.health, 1);
    let mut two = vec![pending(2, ShipType::Ship3), pending(3, ShipType::Ship3)];
    remove_overly_long_tag(&mut two);
    assert!(two[0].pending.is_some());
    assert!(two[1].pending.is_some());
}

#[test]
fn capture_flow_from_hit_to_resumed_play() {
    let mut ships = vec![player(1), pending(2, ShipType::Ship3)];
    let mut state = GameState::Regular;
    let mut prompt = None;
    let mut decision = None;
    let mut score = PlayerScore::new();
    pause_for_captured_ship(&ships, &mut state, &mut prompt);
    assert_eq!(state, GameState::Paused);
    check_for_usage_decision(&mut decision, &mut ships, &mut prompt, &mut state, &mut score);
    assert_eq!(state, GameState::Paused);
    decision = Some(ShipUsageDecision::Transfer);
    check_for_usage_decision(&mut decision, &mut ships, &mut prompt, &mut state, &mut score);
    assert_eq!(state, GameState::Regular);
    assert_eq!(swap_ships(&mut ships), Some(1));
    assert_eq!(get_single(&ships, Selector::Player), Some(1));
    assert_eq!(get_single(&ships, Selector::Pending), None);
}
