//! Collision and damage resolution: what the collision events of one tick do
//! to the ships, the bullets and the score.

use vstd::prelude::*;
use crate::entity::{
    at_most_one, bullets_wf, fleet_wf, none_selected, BulletBundle, Entities, ExplosionMarker,
    MyFateLiesInTheBalanceAndIWouldReallyAppreciateIfIfYouDidntKillMeMarker, Selector, Ship,
};
use crate::handles::{lemma_bullets_culled, lemma_ships_changed_in_place, tables_wf};
use crate::roles::{lemma_kind_kept_in_place, roles_wf};
use crate::score::PlayerScore;
use crate::spacecraft::{reward_for_hit, spares_for_capture, CAPTURE_POINTS};

verus! {

/// The damage that one collision does to a ship.
pub const COLLISION_DAMAGE: i32 = 1;

/// What the physics collaborator reports about a pair of entities.
#[derive(Clone, Copy, PartialEq, Eq, Structural, Debug)]
pub enum CollisionEvent {
    /// The two entities have begun to overlap.
    Started(u64, u64),
    /// The two entities have ceased to overlap.
    Stopped(u64, u64),
}

/// Whether `entity` is a bullet of the player's.
pub open spec fn holds_player_shot(bullets: Seq<BulletBundle>, entity: u64) -> bool {
    exists|i: int|
        0 <= i < bullets.len() && (#[trigger] bullets[i]).entity == entity
            && bullets[i].bullet.player_shot
}

/// Whether some bullet that the ship `entity` fired is still within its
/// self-immunity window. A ship that no bullet names is never immune.
pub open spec fn is_immune(bullets: Seq<BulletBundle>, entity: u64) -> bool {
    exists|i: int| 0 <= i < bullets.len() && (#[trigger] bullets[i]).bullet.shields(entity)
}

/// Whether the ship table lists a ship under the handle `entity`.
pub open spec fn is_listed(ships: Seq<Ship>, entity: u64) -> bool {
    exists|i: int| 0 <= i < ships.len() && (#[trigger] ships[i]).entity == entity
}

/// The ship at index `i` is the first that the table lists under `entity`.
pub open spec fn is_first_listed(ships: Seq<Ship>, entity: u64, i: int) -> bool {
    &&& 0 <= i < ships.len()
    &&& ships[i].entity == entity
    &&& forall|j: int| 0 <= j < i ==> (#[trigger] ships[j]).entity != entity
}

/// The index of the first ship that the table lists under `entity`.
pub open spec fn first_listed(ships: Seq<Ship>, entity: u64) -> int {
    choose|i: int| is_first_listed(ships, entity, i)
}

/// The bullet table without the bullets listed under `entity`.
pub open spec fn without_entity(bullets: Seq<BulletBundle>, entity: u64) -> Seq<BulletBundle> {
    bullets.filter(|bullet: BulletBundle| bullet.entity != entity)
}

/// A ship after a collision has struck it: it takes the damage of one
/// collision, is owed an explosion, and awaits the player's decision if the
/// hit spared it.
pub open spec fn struck(ship: Ship, by_player_shot: bool) -> Ship {
    Ship {
        craft: ship.craft.hit(COLLISION_DAMAGE as int, by_player_shot),
        explosion: Some(ExplosionMarker),
        pending: if spares_for_capture(
            ship.craft.health as int,
            COLLISION_DAMAGE as int,
            by_player_shot,
        ) {
            Some(MyFateLiesInTheBalanceAndIWouldReallyAppreciateIfIfYouDidntKillMeMarker)
        } else {
            ship.pending
        },
        ..ship
    }
}

/// What collisions act on: the two entity tables and the points scored.
pub struct Combat {
    pub ships: Seq<Ship>,
    pub bullets: Seq<BulletBundle>,
    pub points: int,
}

impl Combat {
    /// What collisions act on, taken from the tables and the score.
    pub open spec fn of(
        ships: Seq<Ship>,
        bullets: Seq<BulletBundle>,
        score: PlayerScore,
    ) -> Combat {
        Combat { ships, bullets, points: score.score as int }
    }

    /// Whether a collision strikes the ship `entity`: no ship awaits the
    /// player's decision, the table lists the ship, and none of its own
    /// bullets is still within its self-immunity window.
    pub open spec fn takes_hit(self, entity: u64) -> bool {
        &&& none_selected(self.ships, Selector::Pending)
        &&& is_listed(self.ships, entity)
        &&& !is_immune(self.bullets, entity)
    }

    /// The state after one side of a collision: where the ship `entity` takes
    /// the hit it is struck and the player is rewarded; otherwise nothing
    /// changes.
    pub open spec fn strike(self, entity: u64, by_player_shot: bool) -> Combat {
        if self.takes_hit(entity) {
            let i = first_listed(self.ships, entity);
            Combat {
                ships: self.ships.update(i, struck(self.ships[i], by_player_shot)),
                bullets: self.bullets,
                points: self.points + reward_for_hit(
                    self.ships[i].craft.health as int,
                    COLLISION_DAMAGE as int,
                    by_player_shot,
                ),
            }
        } else {
            self
        }
    }

    /// The state after the entities `a` and `b` have begun to overlap. First
    /// `a` is struck, as by a shot of the player's if `b` is one, then `b`
    /// likewise. Whatever struck a ship is spent: the bullets listed under the
    /// other handle leave the table.
    pub open spec fn resolve(self, a: u64, b: u64) -> Combat {
        let first = self.strike(a, holds_player_shot(self.bullets, b));
        let second = first.strike(b, holds_player_shot(self.bullets, a));
        let spent_on_a = if self.takes_hit(a) {
            without_entity(self.bullets, b)
        } else {
            self.bullets
        };
        Combat {
            ships: second.ships,
            bullets: if first.takes_hit(b) {
                without_entity(spent_on_a, a)
            } else {
                spent_on_a
            },
            points: second.points,
        }
    }

    /// The state after one collision event. Only the start of an overlap has
    /// an effect.
    pub open spec fn apply(self, event: CollisionEvent) -> Combat {
        match event {
            CollisionEvent::Started(a, b) => self.resolve(a, b),
            CollisionEvent::Stopped(_, _) => self,
        }
    }

    /// The state after a batch of collision events, taken in order.
    pub open spec fn apply_all(self, events: Seq<CollisionEvent>) -> Combat
        decreases events.len(),
    {
        if events.len() == 0 {
            self
        } else {
            self.apply_all(events.drop_last()).apply(events.last())
        }
    }
}

/// Every ship can lose `hits` points of health without leaving the range of
/// its health counter.
pub open spec fn can_absorb(ships: Seq<Ship>, hits: int) -> bool {
    forall|i: int| 0 <= i < ships.len() ==> (#[trigger] ships[i]).craft.health - hits >= i32::MIN
}

/// Every ship that awaits the player's decision can lose `hits` points of
/// health without leaving the range of its health counter.
pub open spec fn pending_can_absorb(ships: Seq<Ship>, hits: int) -> bool {
    forall|i: int|
        0 <= i < ships.len() && (#[trigger] ships[i]).pending is Some ==> ships[i].craft.health
            - hits >= i32::MIN
}

/// Decides [`pending_can_absorb`].
pub fn can_pending_absorb(ships: &Vec<Ship>, hits: u32) -> (b: bool)
    ensures
        b == pending_can_absorb(ships@, hits as int),
{
    let mut i: usize = 0;
    while i < ships.len()
        invariant
            i <= ships.len(),
            forall|k: int|
                0 <= k < i && (#[trigger] ships[k]).pending is Some ==> ships[k].craft.health
                    - hits >= i32::MIN,
        decreases ships.len() - i,
    {
        if ships[i].pending.is_some() && (ships[i].craft.health as i64) - (hits as i64)
            < i32::MIN as i64 {
            return false;
        }
        i = i + 1;
    }
    true
}

/// Decides [`can_absorb`].
pub fn can_all_absorb(ships: &Vec<Ship>, hits: u32) -> (b: bool)
    ensures
        b == can_absorb(ships@, hits as int),
{
    let mut i: usize = 0;
    while i < ships.len()
        invariant
            i <= ships.len(),
            forall|k: int| 0 <= k < i ==> (#[trigger] ships[k]).craft.health - hits >= i32::MIN,
        decreases ships.len() - i,
    {
        if (ships[i].craft.health as i64) - (hits as i64) < i32::MIN as i64 {
            return false;
        }
        i = i + 1;
    }
    true
}

/// The first ship listed under a handle is the one that [`first_listed`] names.
pub proof fn lemma_first_listed_is_unique(ships: Seq<Ship>, entity: u64, i: int)
    requires
        is_first_listed(ships, entity, i),
    ensures
        first_listed(ships, entity) == i,
        is_listed(ships, entity),
{
    let k = first_listed(ships, entity);
    assert(is_first_listed(ships, entity, k));
    if k < i {
        assert(ships[k].entity != entity);
    } else if i < k {
        assert(ships[i].entity != entity);
    }
    assert(ships[i].entity == entity);
}

/// Decides [`holds_player_shot`].
pub fn is_shot_by_player(bullets: &Vec<BulletBundle>, entity: u64) -> (found: bool)
    ensures
        found == holds_player_shot(bullets@, entity),
{
    let mut i: usize = 0;
    while i < bullets.len()
        invariant
            i <= bullets.len(),
            forall|j: int|
                0 <= j < i ==> !((#[trigger] bullets[j]).entity == entity
                    && bullets[j].bullet.player_shot),
        decreases bullets.len() - i,
    {
        if bullets[i].entity == entity && bullets[i].bullet.player_shot {
            return true;
        }
        i = i + 1;
    }
    false
}

/// Decides [`is_immune`].
pub fn has_immunity(bullets: &Vec<BulletBundle>, entity: u64) -> (found: bool)
    ensures
        found == is_immune(bullets@, entity),
{
    let mut i: usize = 0;
    while i < bullets.len()
        invariant
            i <= bullets.len(),
            forall|j: int| 0 <= j < i ==> !(#[trigger] bullets[j]).bullet.shields(entity),
        decreases bullets.len() - i,
    {
        if bullets[i].bullet.shooter == entity && !bullets[i].bullet.immunity_time.finished() {
            return true;
        }
        i = i + 1;
    }
    false
}

/// The index of the first ship listed under `entity`, if there is one.
pub fn find_ship(ships: &Vec<Ship>, entity: u64) -> (found: Option<usize>)
    ensures
        found matches Some(i) ==> is_first_listed(ships@, entity, i as int),
        found is None ==> !is_listed(ships@, entity),
{
    let mut i: usize = 0;
    while i < ships.len()
        invariant
            i <= ships.len(),
            forall|j: int| 0 <= j < i ==> (#[trigger] ships[j]).entity != entity,
        decreases ships.len() - i,
    {
        if ships[i].entity == entity {
            return Some(i);
        }
        i = i + 1;
    }
    None
}

/// Whether no ship in the table awaits the player's decision.
pub fn none_pending(ships: &Vec<Ship>) -> (none: bool)
    ensures
        none == none_selected(ships@, Selector::Pending),
{
    let mut i: usize = 0;
    while i < ships.len()
        invariant
            i <= ships.len(),
            forall|j: int| 0 <= j < i ==> !(#[trigger] ships[j]).selected_by(Selector::Pending),
        decreases ships.len() - i,
    {
        if ships[i].pending.is_some() {
            return false;
        }
        i = i + 1;
    }
    true
}

/// Takes the bullets listed under `entity` out of the table.
pub fn remove_bullet(bullets: &mut Vec<BulletBundle>, entity: u64)
    ensures
        final(bullets)@ == without_entity(old(bullets)@, entity),
        bullets_wf(old(bullets)@) ==> bullets_wf(final(bullets)@),
        forall|ships: Seq<Ship>, ids: Entities| #[trigger]
            tables_wf(ships, old(bullets)@, ids) ==> tables_wf(ships, final(bullets)@, ids),
{
    proof {
        lemma_bullets_culled(bullets@, |bullet: BulletBundle| bullet.entity != entity);
    }
    let mut kept: Vec<BulletBundle> = Vec::new();
    let mut i: usize = 0;
    while i < bullets.len()
        invariant
            i <= bullets.len(),
            kept@ == without_entity(bullets@.take(i as int), entity),
            bullets_wf(bullets@) ==> bullets_wf(kept@),
        decreases bullets.len() - i,
    {
        proof {
            let done = bullets@.take(i as int);
            assert(bullets@.take(i + 1) =~= done.push(bullets@[i as int]));
            done.lemma_filter_push(
                bullets@[i as int],
                |bullet: BulletBundle| bullet.entity != entity,
            );
        }
        if bullets[i].entity != entity {
            kept.push(bullets[i]);
        }
        i = i + 1;
    }
    proof {
        assert(bullets@.take(bullets.len() as int) =~= bullets@);
    }
    *bullets = kept;
}

/// Resolves one side of a collision: strikes the ship `entity` if it takes
/// the hit, and says whether it did.
pub fn strike(
    ships: &mut Vec<Ship>,
    bullets: &Vec<BulletBundle>,
    score: &mut PlayerScore,
    entity: u64,
    by_player_shot: bool,
) -> (hit: bool)
    requires
        can_absorb(old(ships)@, 1),
        old(score).score + CAPTURE_POINTS <= u32::MAX,
    ensures
        hit == Combat::of(old(ships)@, bullets@, *old(score)).takes_hit(entity),
        Combat::of(final(ships)@, bullets@, *final(score)) == Combat::of(
            old(ships)@,
            bullets@,
            *old(score),
        ).strike(entity, by_player_shot),
        final(score).add_score_timer == old(score).add_score_timer,
        final(score).survived_time == old(score).survived_time,
        final(ships).len() == old(ships).len(),
        forall|i: int|
            0 <= i < old(ships).len() ==> (#[trigger] final(ships)[i]).entity == old(
                ships,
            )[i].entity,
        fleet_wf(old(ships)@) ==> fleet_wf(final(ships)@),
        roles_wf(old(ships)@) ==> roles_wf(final(ships)@),
{
    if !none_pending(ships) {
        return false;
    }
    let found = find_ship(ships, entity);
    if found.is_none() {
        return false;
    }
    if has_immunity(bullets, entity) {
        return false;
    }
    let i: usize = found.unwrap();
    proof {
        lemma_first_listed_is_unique(ships@, entity, i as int);
    }
    let ghost before = ships@[i as int];
    ships[i].explosion = Some(ExplosionMarker);
    let swap = ships[i].craft.collide(COLLISION_DAMAGE, by_player_shot, score);
    if swap {
        ships[i].pending = Some(
            MyFateLiesInTheBalanceAndIWouldReallyAppreciateIfIfYouDidntKillMeMarker,
        );
    }
    proof {
        assert(ships@[i as int] == struck(before, by_player_shot));
        assert(ships@ =~= old(ships)@.update(i as int, struck(before, by_player_shot)));
        if fleet_wf(old(ships)@) {
            assert forall|k: int| 0 <= k < ships@.len() implies (#[trigger] ships@[k]).wf() by {
                assert(old(ships)@[k].wf());
            }
        }
        if roles_wf(old(ships)@) {
            lemma_kind_kept_in_place(old(ships)@, ships@, Selector::Player);
            lemma_strike_keeps_one_decision(
                Combat::of(old(ships)@, bullets@, *old(score)),
                entity,
                by_player_shot,
            );
        }
    }
    true
}

/// Resolves the start of an overlap between the entities `a` and `b`.
pub fn resolve_collision(
    ships: &mut Vec<Ship>,
    bullets: &mut Vec<BulletBundle>,
    score: &mut PlayerScore,
    a: u64,
    b: u64,
)
    requires
        can_absorb(old(ships)@, 2),
        old(score).score + 2 * CAPTURE_POINTS <= u32::MAX,
    ensures
        Combat::of(final(ships)@, final(bullets)@, *final(score)) == Combat::of(
            old(ships)@,
            old(bullets)@,
            *old(score),
        ).resolve(a, b),
        final(score).add_score_timer == old(score).add_score_timer,
        final(score).survived_time == old(score).survived_time,
        fleet_wf(old(ships)@) ==> fleet_wf(final(ships)@),
        bullets_wf(old(bullets)@) ==> bullets_wf(final(bullets)@),
        roles_wf(old(ships)@) ==> roles_wf(final(ships)@),
        forall|ids: Entities| #[trigger]
            tables_wf(old(ships)@, old(bullets)@, ids) ==> tables_wf(
                final(ships)@,
                final(bullets)@,
                ids,
            ),
{
    let a_hit_by_player = is_shot_by_player(bullets, b);
    let b_hit_by_player = is_shot_by_player(bullets, a);
    let ghost start = Combat::of(ships@, bullets@, *score);
    let hit_a = strike(ships, bullets, score, a, a_hit_by_player);
    proof {
        lemma_strike_bounds(start, a, a_hit_by_player);
    }
    let hit_b = strike(ships, bullets, score, b, b_hit_by_player);
    proof {
        lemma_ships_changed_in_place(old(ships)@, ships@);
    }
    if hit_a {
        remove_bullet(bullets, b);
    }
    if hit_b {
        remove_bullet(bullets, a);
    }
}

/// One side of a collision keeps every ship in the table under its handle,
/// costs a ship at most the damage of one collision, and earns at most the
/// capture points.
pub proof fn lemma_strike_bounds(combat: Combat, entity: u64, by_player_shot: bool)
    ensures
        combat.strike(entity, by_player_shot).ships.len() == combat.ships.len(),
        combat.strike(entity, by_player_shot).bullets == combat.bullets,
        forall|i: int|
            0 <= i < combat.ships.len() ==> {
                &&& (#[trigger] combat.strike(entity, by_player_shot).ships[i]).entity
                    == combat.ships[i].entity
                &&& combat.strike(entity, by_player_shot).ships[i].craft.health
                    >= combat.ships[i].craft.health - COLLISION_DAMAGE
                    || combat.ships[i].craft.health - COLLISION_DAMAGE < i32::MIN
            },
        combat.points <= combat.strike(entity, by_player_shot).points <= combat.points
            + CAPTURE_POINTS,
{
    if combat.takes_hit(entity) {
        let k = first_listed(combat.ships, entity);
        let w = choose|i: int|
            0 <= i < combat.ships.len() && (#[trigger] combat.ships[i]).entity == entity;
        lemma_first_exists(combat.ships, entity, w);
        assert(is_first_listed(combat.ships, entity, k));
    }
}

/// Where the table lists a ship under a handle, it lists a first one.
pub proof fn lemma_first_exists(ships: Seq<Ship>, entity: u64, i: int)
    requires
        0 <= i < ships.len(),
        ships[i].entity == entity,
    ensures
        exists|k: int| is_first_listed(ships, entity, k),
    decreases i,
{
    if forall|j: int| 0 <= j < i ==> (#[trigger] ships[j]).entity != entity {
        assert(is_first_listed(ships, entity, i));
    } else {
        let j = choose|j: int| 0 <= j < i && (#[trigger] ships[j]).entity == entity;
        lemma_first_exists(ships, entity, j);
    }
}

/// The start of an overlap keeps every ship in the table under its handle,
/// costs a ship at most the damage of two collisions, earns at most twice the
/// capture points, and adds no bullet.
pub proof fn lemma_resolve_bounds(combat: Combat, a: u64, b: u64)
    ensures
        combat.resolve(a, b).ships.len() == combat.ships.len(),
        combat.resolve(a, b).bullets.len() <= combat.bullets.len(),
        forall|i: int|
            0 <= i < combat.ships.len() ==> {
                &&& (#[trigger] combat.resolve(a, b).ships[i]).entity == combat.ships[i].entity
                &&& combat.resolve(a, b).ships[i].craft.health >= combat.ships[i].craft.health
                    - 2 * COLLISION_DAMAGE || combat.ships[i].craft.health - 2 * COLLISION_DAMAGE
                    < i32::MIN
            },
        combat.points <= combat.resolve(a, b).points <= combat.points + 2 * CAPTURE_POINTS,
{
    let first = combat.strike(a, holds_player_shot(combat.bullets, b));
    lemma_strike_bounds(combat, a, holds_player_shot(combat.bullets, b));
    lemma_strike_bounds(first, b, holds_player_shot(combat.bullets, a));
    let second = first.strike(b, holds_player_shot(combat.bullets, a));
    assert forall|i: int| 0 <= i < combat.ships.len() implies {
        &&& (#[trigger] combat.resolve(a, b).ships[i]).entity == combat.ships[i].entity
        &&& combat.resolve(a, b).ships[i].craft.health >= combat.ships[i].craft.health - 2
            * COLLISION_DAMAGE || combat.ships[i].craft.health - 2 * COLLISION_DAMAGE < i32::MIN
    } by {
        assert(second.ships[i].entity == first.ships[i].entity);
        assert(first.ships[i].entity == combat.ships[i].entity);
    }
    broadcast use Seq::lemma_filter_len;
}

/// Bullet self-immunity: while a bullet that a ship fired is within its
/// self-immunity window, an overlap that involves the ship does it no damage,
/// leaves it in the table, and does not spend whatever it overlaps with on it.
pub proof fn lemma_fresh_shot_spares_its_shooter(combat: Combat, shooter: u64, other: u64)
    requires
        is_immune(combat.bullets, shooter),
    ensures
        combat.resolve(shooter, other).ships.len() == combat.ships.len(),
        combat.resolve(other, shooter).ships.len() == combat.ships.len(),
        forall|i: int|
            0 <= i < combat.ships.len() && (#[trigger] combat.ships[i]).entity == shooter ==> {
                &&& combat.resolve(shooter, other).ships[i] == combat.ships[i]
                &&& combat.resolve(other, shooter).ships[i] == combat.ships[i]
            },
        !combat.takes_hit(other) ==> combat.resolve(shooter, other) == combat && combat.resolve(
            other,
            shooter,
        ) == combat,
{
    let tag_s = holds_player_shot(combat.bullets, other);
    let tag_o = holds_player_shot(combat.bullets, shooter);
    assert(combat.strike(shooter, tag_s) == combat);
    lemma_strike_bounds(combat, other, tag_o);
    let struck_other = combat.strike(other, tag_o);
    assert(struck_other.strike(shooter, tag_s) == struck_other);
    if combat.takes_hit(other) {
        let w = choose|i: int|
            0 <= i < combat.ships.len() && (#[trigger] combat.ships[i]).entity == other;
        lemma_first_exists(combat.ships, other, w);
        assert(is_first_listed(combat.ships, other, first_listed(combat.ships, other)));
    }
}

/// One decision at a time: where at most one ship awaits the player's
/// decision before an event, at most one does after it; and while one does,
/// the event changes nothing.
pub proof fn lemma_one_decision_at_a_time(combat: Combat, event: CollisionEvent)
    requires
        at_most_one(combat.ships, Selector::Pending),
    ensures
        at_most_one(combat.apply(event).ships, Selector::Pending),
        !none_selected(combat.ships, Selector::Pending) ==> combat.apply(event) == combat,
{
    if let CollisionEvent::Started(a, b) = event {
        let tag_a = holds_player_shot(combat.bullets, b);
        let tag_b = holds_player_shot(combat.bullets, a);
        lemma_strike_keeps_one_decision(combat, a, tag_a);
        lemma_strike_keeps_one_decision(combat.strike(a, tag_a), b, tag_b);
    }
}

/// One side of a collision leaves at most one ship awaiting the player's
/// decision where at most one did before.
pub proof fn lemma_strike_keeps_one_decision(combat: Combat, entity: u64, by_player_shot: bool)
    requires
        at_most_one(combat.ships, Selector::Pending),
    ensures
        at_most_one(combat.strike(entity, by_player_shot).ships, Selector::Pending),
{
    if combat.takes_hit(entity) {
        let k = first_listed(combat.ships, entity);
        let after = combat.strike(entity, by_player_shot).ships;
        let w = choose|i: int|
            0 <= i < combat.ships.len() && (#[trigger] combat.ships[i]).entity == entity;
        lemma_first_exists(combat.ships, entity, w);
        assert(is_first_listed(combat.ships, entity, k));
        assert forall|i: int, j: int|
            0 <= i < after.len() && 0 <= j < after.len() && (#[trigger] after[i]).selected_by(
                Selector::Pending,
            ) && (#[trigger] after[j]).selected_by(Selector::Pending) implies i == j by {
            if i != k {
                assert(after[i] == combat.ships[i]);
                assert(!combat.ships[i].selected_by(Selector::Pending));
            }
            if j != k {
                assert(after[j] == combat.ships[j]);
                assert(!combat.ships[j].selected_by(Selector::Pending));
            }
        }
    }
}

/// A batch of events keeps every ship in the table under its handle, costs a
/// ship at most the damage of two collisions per event, earns at most twice
/// the capture points per event, adds no bullet, and leaves at most one ship
/// awaiting the player's decision where at most one did before.
pub proof fn lemma_batch_bounds(combat: Combat, events: Seq<CollisionEvent>)
    ensures
        combat.apply_all(events).ships.len() == combat.ships.len(),
        combat.apply_all(events).bullets.len() <= combat.bullets.len(),
        forall|i: int|
            0 <= i < combat.ships.len() ==> {
                &&& (#[trigger] combat.apply_all(events).ships[i]).entity
                    == combat.ships[i].entity
                &&& combat.apply_all(events).ships[i].craft.health >= combat.ships[i].craft.health
                    - 2 * COLLISION_DAMAGE * events.len() || combat.ships[i].craft.health - 2
                    * COLLISION_DAMAGE * events.len() < i32::MIN
            },
        combat.points <= combat.apply_all(events).points <= combat.points + 2 * CAPTURE_POINTS
            * events.len(),
        at_most_one(combat.ships, Selector::Pending) ==> at_most_one(
            combat.apply_all(events).ships,
            Selector::Pending,
        ),
    decreases events.len(),
{
    if events.len() > 0 {
        let before = combat.apply_all(events.drop_last());
        lemma_batch_bounds(combat, events.drop_last());
        if let CollisionEvent::Started(a, b) = events.last() {
            lemma_resolve_bounds(before, a, b);
        }
        if at_most_one(combat.ships, Selector::Pending) {
            lemma_one_decision_at_a_time(before, events.last());
        }
        let after = combat.apply_all(events);
        assert forall|i: int| 0 <= i < combat.ships.len() implies {
            &&& (#[trigger] after.ships[i]).entity == combat.ships[i].entity
            &&& after.ships[i].craft.health >= combat.ships[i].craft.health - 2 * COLLISION_DAMAGE
                * events.len() || combat.ships[i].craft.health - 2 * COLLISION_DAMAGE
                * events.len() < i32::MIN
        } by {
            assert(before.ships[i].entity == combat.ships[i].entity);
        }
    }
}

/// Damage resolution for one tick: drains the batch of collision events in
/// order. While a ship awaits the player's decision nothing is resolved.
pub fn collide_bullets(
    collision_events: &Vec<CollisionEvent>,
    ships: &mut Vec<Ship>,
    bullets: &mut Vec<BulletBundle>,
    score: &mut PlayerScore,
)
    requires
        can_absorb(old(ships)@, 2 * collision_events.len()),
        old(score).score + 2 * CAPTURE_POINTS * collision_events.len() <= u32::MAX,
    ensures
        Combat::of(final(ships)@, final(bullets)@, *final(score)) == Combat::of(
            old(ships)@,
            old(bullets)@,
            *old(score),
        ).apply_all(collision_events@),
        final(score).add_score_timer == old(score).add_score_timer,
        final(score).survived_time == old(score).survived_time,
        final(ships).len() == old(ships).len(),
        at_most_one(old(ships)@, Selector::Pending) ==> at_most_one(
            final(ships)@,
            Selector::Pending,
        ),
        fleet_wf(old(ships)@) ==> fleet_wf(final(ships)@),
        bullets_wf(old(bullets)@) ==> bullets_wf(final(bullets)@),
        roles_wf(old(ships)@) ==> roles_wf(final(ships)@),
        forall|ids: Entities| #[trigger]
            tables_wf(old(ships)@, old(bullets)@, ids) ==> tables_wf(
                final(ships)@,
                final(bullets)@,
                ids,
            ),
{
    let ghost start = Combat::of(ships@, bullets@, *score);
    let mut i: usize = 0;
    while i < collision_events.len()
        invariant
            i <= collision_events.len(),
            Combat::of(ships@, bullets@, *score) == start.apply_all(
                collision_events@.take(i as int),
            ),
            can_absorb(start.ships, 2 * collision_events.len()),
            start.points + 2 * CAPTURE_POINTS * collision_events.len() <= u32::MAX,
            score.add_score_timer == old(score).add_score_timer,
            score.survived_time == old(score).survived_time,
            forall|ids: Entities| #[trigger]
                tables_wf(old(ships)@, old(bullets)@, ids) ==> tables_wf(ships@, bullets@, ids),
            fleet_wf(old(ships)@) ==> fleet_wf(ships@),
            bullets_wf(old(bullets)@) ==> bullets_wf(bullets@),
            roles_wf(old(ships)@) ==> roles_wf(ships@),
        decreases collision_events.len() - i,
    {
        let ghost done = collision_events@.take(i as int);
        let ghost now = Combat::of(ships@, bullets@, *score);
        proof {
            lemma_batch_bounds(start, done);
            assert(done.len() == i);
            assert(now.points <= start.points + 30 * i);
            assert(start.points + 30 * collision_events.len() <= u32::MAX);
            assert(collision_events@.take(i + 1).drop_last() =~= done);
            assert(collision_events@.take(i + 1).last() == collision_events@[i as int]);
            assert(can_absorb(ships@, 2)) by {
                assert forall|k: int| 0 <= k < ships@.len() implies (
                #[trigger] ships@[k]).craft.health - 2 >= i32::MIN by {
                    assert(start.ships[k].craft.health - 2 * collision_events.len() >= i32::MIN);
                    assert(now.ships[k].entity == start.ships[k].entity);
                }
            }
        }
        match collision_events[i] {
            CollisionEvent::Started(a, b) => {
                resolve_collision(ships, bullets, score, a, b);
            },
            CollisionEvent::Stopped(_, _) => {},
        }
        i = i + 1;
    }
    proof {
        assert(collision_events@.take(collision_events.len() as int) =~= collision_events@);
        lemma_batch_bounds(start, collision_events@);
    }
}

} // verus!
