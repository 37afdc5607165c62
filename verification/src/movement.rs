//! Movement: integrating positions, ticking the ship timers, and the lagged
//! record of where the player has been.

use vstd::prelude::*;
use crate::entity::{fleet_wf, get_single, is_single, BulletBundle, Entities, Selector, Ship};
use crate::handles::{lemma_ships_changed_in_place, tables_wf};
use crate::roles::{lemma_roles_kept_in_place, roles_wf};
use crate::score::PlayerScore;
use crate::spacecraft::Spacecraft;
use crate::timer::NANOS_PER_SEC;
use crate::units::{Direction, Point};

verus! {

/// How long a sample of the player's position stays in the buffer, in
/// nanoseconds.
pub const LOCATION_WINDOW: u64 = 2 * NANOS_PER_SEC;

/// A new sample is taken only while the buffer holds at most this many.
pub const LOCATION_SAMPLES: usize = 10;

/// Where the player was a short while ago: what hostile ships steer by.
pub struct DelayedPlayerLocation {
    /// Positions of the player with the time on the survival clock at which
    /// each was taken, oldest first.
    pub buffered_locations: Vec<(Point, u64)>,
    /// The position that hostile ships currently steer by.
    pub current_location: Point,
}

impl Spacecraft {
    /// The ship after one tick of movement: the shield timer has advanced by
    /// `delta`, and the position by the speed along `facing`.
    pub open spec fn moved(self, facing: Direction, delta: u64) -> Spacecraft {
        Spacecraft {
            shield_recharge: self.shield_recharge.ticked(delta),
            position: self.position.advanced(self.velocity as int, facing),
            ..self
        }
    }

    /// The ship after its gun has reloaded for `delta` nanoseconds.
    pub open spec fn reloaded(self, delta: u64) -> Spacecraft {
        Spacecraft { weapon_cooldown: self.weapon_cooldown.ticked(delta), ..self }
    }
}

/// Moves every ship by its speed along the unit vector of its heading, and
/// advances its shield timer: `facings[i]` is the unit vector of the heading
/// of the ship at index `i`.
pub fn move_spaceships(ships: &mut Vec<Ship>, facings: &Vec<Direction>, delta: u64)
    requires
        fleet_wf(old(ships)@),
        facings.len() == old(ships).len(),
        forall|i: int| 0 <= i < facings.len() ==> (#[trigger] facings[i]).wf(),
    ensures
        final(ships).len() == old(ships).len(),
        forall|i: int|
            0 <= i < old(ships).len() ==> (#[trigger] final(ships)[i]) == (Ship {
                craft: old(ships)[i].craft.moved(facings[i], delta),
                ..old(ships)[i]
            }),
        fleet_wf(final(ships)@),
        roles_wf(old(ships)@) ==> roles_wf(final(ships)@),
        forall|bullets: Seq<BulletBundle>, ids: Entities| #[trigger]
            tables_wf(old(ships)@, bullets, ids) ==> tables_wf(final(ships)@, bullets, ids),
{
    let mut i: usize = 0;
    while i < ships.len()
        invariant
            i <= ships.len(),
            ships.len() == old(ships).len(),
            facings.len() == ships.len(),
            forall|k: int| 0 <= k < facings.len() ==> (#[trigger] facings[k]).wf(),
            forall|k: int|
                0 <= k < i ==> (#[trigger] ships[k]) == (Ship {
                    craft: old(ships)[k].craft.moved(facings[k], delta),
                    ..old(ships)[k]
                }),
            forall|k: int| i <= k < ships.len() ==> (#[trigger] ships[k]) == old(ships)[k],
            fleet_wf(ships@),
        decreases ships.len() - i,
    {
        ships[i].craft.shield_recharge.tick(delta);
        let velocity: i64 = ships[i].craft.velocity;
        let position = ships[i].craft.position.advance(velocity, facings[i]);
        ships[i].craft.position = position;
        i = i + 1;
    }
    proof {
        lemma_ships_changed_in_place(old(ships)@, ships@);
        lemma_roles_kept_in_place(old(ships)@, ships@);
    }
}

/// Lets the gun of every ship reload for `delta` nanoseconds.
pub fn tick_timer(delta: u64, ships: &mut Vec<Ship>)
    ensures
        final(ships).len() == old(ships).len(),
        forall|i: int|
            0 <= i < old(ships).len() ==> (#[trigger] final(ships)[i]) == (Ship {
                craft: old(ships)[i].craft.reloaded(delta),
                ..old(ships)[i]
            }),
        fleet_wf(old(ships)@) ==> fleet_wf(final(ships)@),
        roles_wf(old(ships)@) ==> roles_wf(final(ships)@),
        forall|bullets: Seq<BulletBundle>, ids: Entities| #[trigger]
            tables_wf(old(ships)@, bullets, ids) ==> tables_wf(final(ships)@, bullets, ids),
{
    let mut i: usize = 0;
    while i < ships.len()
        invariant
            i <= ships.len(),
            ships.len() == old(ships).len(),
            forall|k: int|
                0 <= k < i ==> (#[trigger] ships[k]) == (Ship {
                    craft: old(ships)[k].craft.reloaded(delta),
                    ..old(ships)[k]
                }),
            forall|k: int| i <= k < ships.len() ==> (#[trigger] ships[k]) == old(ships)[k],
        decreases ships.len() - i,
    {
        ships[i].craft.weapon_cooldown.tick(delta);
        i = i + 1;
    }
    proof {
        lemma_ships_changed_in_place(old(ships)@, ships@);
        lemma_roles_kept_in_place(old(ships)@, ships@);
        if fleet_wf(old(ships)@) {
            assert forall|k: int| 0 <= k < ships@.len() implies (#[trigger] ships@[k]).wf() by {
                assert(old(ships)@[k].wf());
            }
        }
    }
}

/// Whether a sample taken at `taken` is older than the window at `now`.
pub open spec fn is_stale(taken: u64, now: u64) -> bool {
    taken + LOCATION_WINDOW < now
}

/// The buffer without the stale samples at its front.
pub open spec fn without_stale(samples: Seq<(Point, u64)>, now: u64) -> Seq<(Point, u64)>
    decreases samples.len(),
{
    if samples.len() > 0 && is_stale(samples[0].1, now) {
        without_stale(samples.drop_first(), now)
    } else {
        samples
    }
}

/// The buffer after the player has been sampled at `position`: stale samples
/// leave the front, and the new one joins the back unless more than
/// [`LOCATION_SAMPLES`] are left.
pub open spec fn sampled(samples: Seq<(Point, u64)>, position: Point, now: u64) -> Seq<
    (Point, u64),
> {
    let kept = without_stale(samples, now);
    if kept.len() <= LOCATION_SAMPLES {
        kept.push((position, now))
    } else {
        kept
    }
}

/// The position to steer by: the oldest sample, or `current` without one.
pub open spec fn oldest_or(samples: Seq<(Point, u64)>, current: Point) -> Point {
    if samples.len() > 0 {
        samples[0].0
    } else {
        current
    }
}

/// Removes the stale samples from the front of the buffer.
fn drop_stale(samples: &mut Vec<(Point, u64)>, now: u64)
    ensures
        final(samples)@ == without_stale(old(samples)@, now),
{
    while samples.len() > 0 && samples[0].1 < now && now - samples[0].1 > LOCATION_WINDOW
        invariant
            without_stale(samples@, now) == without_stale(old(samples)@, now),
        decreases samples.len(),
    {
        proof {
            assert(is_stale(samples@[0].1, now));
            assert(samples@.remove(0) =~= samples@.drop_first());
        }
        samples.remove(0);
    }
}

/// Refreshes the lagged record of the player's position. Where the table
/// holds exactly one ship of the player's, the buffer is brought up to the
/// time on the survival clock and the ship's position is sampled. Then the
/// oldest sample, if there is one, becomes the position to steer by.
pub fn update_delayed_location(
    player_location: &mut DelayedPlayerLocation,
    timer: &PlayerScore,
    ships: &Vec<Ship>,
)
    ensures
        forall|p: int|
            is_single(ships@, Selector::Player, p) ==> final(player_location).buffered_locations@
                == sampled(
                old(player_location).buffered_locations@,
                ships[p].craft.position,
                timer.survived_time.elapsed,
            ),
        (forall|p: int| !is_single(ships@, Selector::Player, p))
            ==> final(player_location).buffered_locations@ == old(
            player_location,
        ).buffered_locations@,
        final(player_location).current_location == oldest_or(
            final(player_location).buffered_locations@,
            old(player_location).current_location,
        ),
        old(player_location).wf() && fleet_wf(ships@) ==> final(player_location).wf(),
{
    let found = get_single(ships, Selector::Player);
    if let Some(p) = found {
        proof {
            assert forall|k: int| is_single(ships@, Selector::Player, k) implies k == p by {
                assert(ships@[p as int].selected_by(Selector::Player));
            }
        }
        let time_elapsed: u64 = timer.survived_time.elapsed();
        proof {
            lemma_fresh_samples_are_old_samples(
                player_location.buffered_locations@,
                time_elapsed,
            );
        }
        drop_stale(&mut player_location.buffered_locations, time_elapsed);
        if player_location.buffered_locations.len() <= LOCATION_SAMPLES {
            player_location.buffered_locations.push((ships[p].craft.position, time_elapsed));
        }
    }
    if player_location.buffered_locations.len() > 0 {
        player_location.current_location = player_location.buffered_locations[0].0;
    }
}

/// What is left of the buffer without its stale front is its back: every
/// sample that stays was in the buffer.
pub proof fn lemma_fresh_samples_are_old_samples(samples: Seq<(Point, u64)>, now: u64)
    ensures
        forall|i: int|
            0 <= i < without_stale(samples, now).len() ==> (#[trigger] without_stale(
                samples,
                now,
            )[i]) == samples[i + samples.len() - without_stale(samples, now).len()],
        without_stale(samples, now).len() <= samples.len(),
    decreases samples.len(),
{
    if samples.len() > 0 && is_stale(samples[0].1, now) {
        lemma_fresh_samples_are_old_samples(samples.drop_first(), now);
    }
}

impl DelayedPlayerLocation {
    /// The position to steer by and every sample in the buffer are well
    /// formed.
    pub open spec fn wf(self) -> bool {
        &&& self.current_location.wf()
        &&& forall|i: int|
            0 <= i < self.buffered_locations@.len() ==> (
            #[trigger] self.buffered_locations@[i]).0.wf()
    }

    /// The record at the start of a game: no samples, steering by the origin.
    pub fn new() -> (location: DelayedPlayerLocation)
        ensures
            location.buffered_locations@.len() == 0,
            location.current_location == (Point { x: 0, y: 0 }),
            location.wf(),
    {
        DelayedPlayerLocation { buffered_locations: Vec::new(), current_location: Point::origin() }
    }
}

/// After sampling, no sample at the front of the buffer is stale, so the
/// position to steer by is never older than the window.
pub proof fn lemma_front_is_fresh(samples: Seq<(Point, u64)>, now: u64)
    ensures
        without_stale(samples, now).len() > 0 ==> !is_stale(without_stale(samples, now)[0].1, now),
        without_stale(samples, now).len() <= samples.len(),
    decreases samples.len(),
{
    if samples.len() > 0 && is_stale(samples[0].1, now) {
        lemma_front_is_fresh(samples.drop_first(), now);
    }
}

} // verus!
