//! The explosion sequencer: every ship that was hit gets a timed sequence
//! of stages at the place where it was hit, which runs on its own and leaves
//! when its stages are exhausted.

use vstd::prelude::*;
use crate::animation::{step, stepped};
use crate::entity::{fleet_wf, BulletBundle, Entities, Ship};
use crate::handles::{lemma_ships_changed_in_place, tables_wf};
use crate::roles::{lemma_roles_kept_in_place, roles_wf};
use crate::timer::{Timer, TimerMode, NANOS_PER_MILLI};
use crate::units::Point;

verus! {

/// The time that an explosion spends on each stage, in nanoseconds.
pub const EXPLOSION_FRAME_TIME: u64 = 200 * NANOS_PER_MILLI;

/// The last stage of an explosion, counting from zero.
pub const LAST_EXPLOSION_STAGE: usize = 5;

/// The timer that paces an explosion.
#[derive(Clone, Copy, PartialEq, Eq, Structural, Debug)]
pub struct SoloExplosionMarker(pub Timer);

/// An explosion: where it is drawn, its stage and its pace. It has no effect
/// on play.
#[derive(Clone, Copy, PartialEq, Eq, Structural, Debug)]
pub struct ExplosionBundle {
    pub frame_time: SoloExplosionMarker,
    pub index: usize,
    pub position: Point,
}

impl ExplosionBundle {
    /// The explosion that begins at `position`.
    pub open spec fn starting(position: Point) -> ExplosionBundle {
        ExplosionBundle {
            frame_time: SoloExplosionMarker(
                Timer::fresh(EXPLOSION_FRAME_TIME, TimerMode::Repeating),
            ),
            index: 0,
            position,
        }
    }
}

/// The explosions after `delta` nanoseconds: each goes through one step of
/// its sequence, and those that end leave.
pub open spec fn explosions_after(explosions: Seq<ExplosionBundle>, delta: u64) -> Seq<
    ExplosionBundle,
>
    decreases explosions.len(),
{
    if explosions.len() == 0 {
        Seq::empty()
    } else {
        let rest = explosions_after(explosions.drop_last(), delta);
        let last = explosions.last();
        match stepped(last.frame_time.0, last.index, delta, LAST_EXPLOSION_STAGE) {
            Some(next) => rest.push(
                ExplosionBundle { frame_time: SoloExplosionMarker(next.0), index: next.1, ..last },
            ),
            None => rest,
        }
    }
}

/// The explosions that begin on the given ships: one for each ship that is
/// owed one, where the ship is, in the order of the table.
pub open spec fn explosions_for(ships: Seq<Ship>) -> Seq<ExplosionBundle>
    decreases ships.len(),
{
    if ships.len() == 0 {
        Seq::empty()
    } else if ships.last().explosion is Some {
        explosions_for(ships.drop_last()).push(
            ExplosionBundle::starting(ships.last().craft.position),
        )
    } else {
        explosions_for(ships.drop_last())
    }
}

/// One tick of the explosion sequencer. The explosions under way advance by
/// `delta` nanoseconds; then every ship that is owed an explosion gets one
/// and is owed none any more.
pub fn neo_handle_explosions(
    delta: u64,
    ships: &mut Vec<Ship>,
    explosions: &mut Vec<ExplosionBundle>,
)
    ensures
        final(ships).len() == old(ships).len(),
        forall|i: int|
            0 <= i < old(ships).len() ==> (#[trigger] final(ships)[i]) == (Ship {
                explosion: None,
                ..old(ships)[i]
            }),
        final(explosions)@ == explosions_after(old(explosions)@, delta) + explosions_for(
            old(ships)@,
        ),
        fleet_wf(old(ships)@) ==> fleet_wf(final(ships)@),
        roles_wf(old(ships)@) ==> roles_wf(final(ships)@),
        forall|bullets: Seq<BulletBundle>, ids: Entities| #[trigger]
            tables_wf(old(ships)@, bullets, ids) ==> tables_wf(final(ships)@, bullets, ids),
{
    let mut kept: Vec<ExplosionBundle> = Vec::new();
    let mut i: usize = 0;
    while i < explosions.len()
        invariant
            i <= explosions.len(),
            kept@ == explosions_after(explosions@.take(i as int), delta),
        decreases explosions.len() - i,
    {
        proof {
            assert(explosions@.take(i + 1).drop_last() =~= explosions@.take(i as int));
            assert(explosions@.take(i + 1).last() == explosions@[i as int]);
        }
        let mut timer = explosions[i].frame_time.0;
        let mut index: usize = explosions[i].index;
        if step(&mut timer, &mut index, delta, LAST_EXPLOSION_STAGE) {
            kept.push(
                ExplosionBundle {
                    frame_time: SoloExplosionMarker(timer),
                    index,
                    position: explosions[i].position,
                },
            );
        }
        i = i + 1;
    }
    proof {
        assert(explosions@.take(explosions@.len() as int) =~= explosions@);
    }
    let ghost advanced = kept@;
    let mut j: usize = 0;
    while j < ships.len()
        invariant
            j <= ships.len(),
            ships.len() == old(ships).len(),
            forall|k: int|
                0 <= k < j ==> (#[trigger] ships[k]) == (Ship { explosion: None, ..old(ships)[k] }),
            forall|k: int| j <= k < ships.len() ==> (#[trigger] ships[k]) == old(ships)[k],
            kept@ == advanced + explosions_for(old(ships)@.take(j as int)),
        decreases ships.len() - j,
    {
        proof {
            assert(old(ships)@.take(j + 1).drop_last() =~= old(ships)@.take(j as int));
            assert(old(ships)@.take(j + 1).last() == old(ships)@[j as int]);
        }
        if ships[j].explosion.is_some() {
            kept.push(
                ExplosionBundle {
                    frame_time: SoloExplosionMarker(
                        Timer::new(EXPLOSION_FRAME_TIME, TimerMode::Repeating),
                    ),
                    index: 0,
                    position: ships[j].craft.position,
                },
            );
            ships[j].explosion = None;
            proof {
                assert(kept@ =~= advanced + explosions_for(old(ships)@.take(j + 1)));
            }
        }
        j = j + 1;
    }
    proof {
        assert(old(ships)@.take(old(ships)@.len() as int) =~= old(ships)@);
        lemma_ships_changed_in_place(old(ships)@, ships@);
        lemma_roles_kept_in_place(old(ships)@, ships@);
        if fleet_wf(old(ships)@) {
            assert forall|k: int| 0 <= k < ships@.len() implies (#[trigger] ships@[k]).wf() by {
                assert(old(ships)@[k].wf());
            }
        }
    }
    *explosions = kept;
}

} // verus!
