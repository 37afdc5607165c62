//! Firing, and the life of a bullet: fire patterns, spawn geometry, flight,
//! the self-immunity window and culling.

use vstd::prelude::*;
use crate::chance::random_between;
use crate::entity::{
    bullets_wf, get_single, is_single, Bullet, BulletBundle, Entities, Selector, Ship,
};
use crate::handles::{
    lemma_bullets_changed_in_place, lemma_bullets_culled, lemma_new_bullet_stays_sound, tables_wf,
};
use crate::profile::{ShipProfile, ShipType};
use crate::spacecraft::Spacecraft;
use crate::timer::{Timer, TimerMode, NANOS_PER_MILLI};
use crate::units::{
    add_clamped, clamp, scale, scaled, Direction, Point, ANGLE_LIMIT, COORD_LIMIT, UNIT,
};

verus! {

/// How far ahead of a ship of scale one its shots appear, in micro-units.
pub const MUZZLE_DISTANCE: i64 = 120_000;

/// The length of a bullet's self-immunity window, in nanoseconds.
pub const IMMUNITY_TIME: u64 = 250 * NANOS_PER_MILLI;

/// The shots of an autonomous ship stray from its heading by less than this
/// many micro-radians to either side.
pub const MAX_JITTER: i64 = 400_000;

/// A bullet further than this from the player is culled, in micro-units.
pub const BULLET_RANGE: i64 = 2 * UNIT;

/// The sideways offsets of the shots that a ship of the given type fires at
/// once, in micro-units to the left of its heading: one shot from the centre,
/// two shots at 0.03 to either side, or three at 0.05 to either side and the
/// centre.
pub open spec fn fire_pattern(ship_type: ShipType) -> Seq<int> {
    match ship_type {
        ShipType::Ship1 | ShipType::Ship3 | ShipType::Ship5 => seq![0int],
        ShipType::Ship2 => seq![-30_000int, 30_000int],
        ShipType::Ship4 | ShipType::Ship6 => seq![-50_000int, 0int, 50_000int],
    }
}

/// Whether `jitter` is a deviation that a shot may have: none for the player,
/// less than [`MAX_JITTER`] to either side for anyone else.
pub open spec fn jitter_allowed(jitter: int, player_shot: bool) -> bool {
    if player_shot {
        jitter == 0
    } else {
        -MAX_JITTER <= jitter < MAX_JITTER
    }
}

impl Bullet {
    /// The bullet that the ship `parent`, facing along `facing`, fires
    /// `lateral_offset` to the side with the deviation `jitter`.
    ///
    /// It starts ahead of the ship by the muzzle distance times the ship's
    /// scale and `lateral_offset` along the perpendicular of the heading,
    /// flies at the profile's bullet speed plus whatever forward speed the
    /// ship has, and begins its self-immunity window.
    pub open spec fn fired(
        parent: Spacecraft,
        shooter: u64,
        facing: Direction,
        lateral_offset: int,
        player_shot: bool,
        jitter: int,
    ) -> Bullet {
        let profile = ShipProfile::of(parent.ship_type);
        let reach = scaled(MUZZLE_DISTANCE as int, profile.relative_scale as int);
        Bullet {
            heading: clamp(parent.heading + jitter, -ANGLE_LIMIT as int, ANGLE_LIMIT as int) as i64,
            position: parent.position.shifted(
                scaled(lateral_offset, -facing.cos) + scaled(reach, facing.sin as int),
                scaled(lateral_offset, facing.sin as int) + scaled(reach, facing.cos as int),
            ),
            velocity: (profile.base_bullet_velocity + if parent.velocity > 0 {
                parent.velocity
            } else {
                0
            }) as i64,
            shooter,
            immunity_time: Timer::fresh(IMMUNITY_TIME, TimerMode::Once),
            player_shot,
        }
    }

    /// The bullet after one tick of flight along `facing`.
    pub open spec fn flown(self, facing: Direction) -> Bullet {
        Bullet { position: self.position.advanced(self.velocity as int, facing), ..self }
    }

    /// Creates the bullet that [`Bullet::fired`] describes.
    pub fn fire(
        parent: &Spacecraft,
        shooter: u64,
        facing: Direction,
        lateral_offset: i64,
        player_shot: bool,
        jitter: i64,
    ) -> (bullet: Bullet)
        requires
            parent.wf(),
            facing.wf(),
            -COORD_LIMIT <= lateral_offset <= COORD_LIMIT,
        ensures
            bullet == Bullet::fired(
                *parent,
                shooter,
                facing,
                lateral_offset as int,
                player_shot,
                jitter as int,
            ),
            bullet.wf(),
    {
        let profile = ShipProfile::from_type(parent.ship_type);
        let reach: i64 = scale(MUZZLE_DISTANCE, profile.relative_scale);
        let dx: i64 = scale(lateral_offset, -facing.cos) + scale(reach, facing.sin);
        let dy: i64 = scale(lateral_offset, facing.sin) + scale(reach, facing.cos);
        let forward: i64 = if parent.velocity > 0 {
            parent.velocity
        } else {
            0
        };
        Bullet {
            heading: add_clamped(parent.heading, jitter, ANGLE_LIMIT),
            position: parent.position.shift(dx, dy),
            velocity: profile.base_bullet_velocity + forward,
            shooter,
            immunity_time: Timer::new(IMMUNITY_TIME, TimerMode::Once),
            player_shot,
        }
    }
}

/// Whether `bundle` is a shot that the ship `parent` fires under the handle
/// `entity`, with a deviation that the shot may have.
pub open spec fn is_shot_from(
    bundle: BulletBundle,
    entity: u64,
    parent: Spacecraft,
    shooter: u64,
    facing: Direction,
    lateral_offset: int,
    player_shot: bool,
) -> bool {
    exists|jitter: int|
        {
            &&& jitter_allowed(jitter, player_shot)
            &&& bundle.entity == entity
            &&& bundle.bullet == #[trigger] Bullet::fired(
                parent,
                shooter,
                facing,
                lateral_offset,
                player_shot,
                jitter,
            )
        }
}

/// A ship after it has fired: only its gun has changed, which reloads from
/// the start.
pub open spec fn reloading(parent: Spacecraft) -> Spacecraft {
    Spacecraft { weapon_cooldown: parent.weapon_cooldown.rewound(), ..parent }
}

/// Spawns one bullet of the ship `parent`, `lateral_offset` to the side, and
/// starts the reload of its gun. A shot of the player's flies along the
/// ship's heading; any other strays from it by a random deviation.
pub fn spawn_bullet(
    bullets: &mut Vec<BulletBundle>,
    ids: &mut Entities,
    parent: &mut Spacecraft,
    parent_entity: u64,
    facing: Direction,
    lateral_offset: i64,
    player_shot: bool,
)
    requires
        old(parent).wf(),
        facing.wf(),
        -COORD_LIMIT <= lateral_offset <= COORD_LIMIT,
        old(ids).next < u64::MAX,
    ensures
        final(bullets)@.len() == old(bullets)@.len() + 1,
        final(bullets)@.drop_last() == old(bullets)@,
        is_shot_from(
            final(bullets)@.last(),
            old(ids).next,
            *old(parent),
            parent_entity,
            facing,
            lateral_offset as int,
            player_shot,
        ),
        final(bullets)@.last().bullet.wf(),
        final(ids).next == old(ids).next + 1,
        *final(parent) == reloading(*old(parent)),
        parent_entity < old(ids).next ==> forall|ships: Seq<Ship>| #[trigger]
            tables_wf(ships, old(bullets)@, *old(ids)) ==> tables_wf(
                ships,
                final(bullets)@,
                *final(ids),
            ),
{
    let jitter: i64 = if player_shot {
        0
    } else {
        random_between(-MAX_JITTER, MAX_JITTER)
    };
    let bullet = Bullet::fire(parent, parent_entity, facing, lateral_offset, player_shot, jitter);
    let entity: u64 = ids.spawn();
    bullets.push(BulletBundle { entity, bullet });
    parent.weapon_cooldown.reset();
    proof {
        assert(jitter_allowed(jitter as int, player_shot));
        assert(bullets@.drop_last() =~= old(bullets)@);
        if parent_entity < old(ids).next {
            assert forall|ships: Seq<Ship>| #[trigger]
                tables_wf(ships, old(bullets)@, *old(ids)) implies tables_wf(
                ships,
                bullets@,
                *ids,
            ) by {
                lemma_new_bullet_stays_sound(
                    ships,
                    old(bullets)@,
                    *old(ids),
                    BulletBundle { entity, bullet },
                );
            }
        }
    }
}

/// A shot does not depend on the state of the gun that fired it.
proof fn lemma_shot_ignores_reload(
    bundle: BulletBundle,
    entity: u64,
    parent: Spacecraft,
    shooter: u64,
    facing: Direction,
    lateral_offset: int,
    player_shot: bool,
)
    requires
        is_shot_from(
            bundle,
            entity,
            reloading(parent),
            shooter,
            facing,
            lateral_offset,
            player_shot,
        ),
    ensures
        is_shot_from(bundle, entity, parent, shooter, facing, lateral_offset, player_shot),
{
    let jitter = choose|jitter: int|
        {
            &&& jitter_allowed(jitter, player_shot)
            &&& bundle.entity == entity
            &&& bundle.bullet == #[trigger] Bullet::fired(
                reloading(parent),
                shooter,
                facing,
                lateral_offset,
                player_shot,
                jitter,
            )
        };
    assert(bundle.bullet == Bullet::fired(
        parent,
        shooter,
        facing,
        lateral_offset,
        player_shot,
        jitter,
    ));
}

/// Fires the guns of the ship `parent`: spawns the shots of its type's fire
/// pattern, in order, under consecutive handles, and starts the reload.
pub fn ship_fire(
    bullets: &mut Vec<BulletBundle>,
    ids: &mut Entities,
    parent: &mut Spacecraft,
    parent_entity: u64,
    facing: Direction,
    player_shot: bool,
)
    requires
        old(parent).wf(),
        facing.wf(),
        old(ids).next + 3 <= u64::MAX,
    ensures
        final(bullets)@.len() == old(bullets)@.len() + fire_pattern(old(parent).ship_type).len(),
        final(bullets)@.take(old(bullets)@.len() as int) == old(bullets)@,
        forall|k: int|
            0 <= k < fire_pattern(old(parent).ship_type).len() ==> is_shot_from(
                #[trigger] final(bullets)@[old(bullets)@.len() + k],
                (old(ids).next + k) as u64,
                *old(parent),
                parent_entity,
                facing,
                fire_pattern(old(parent).ship_type)[k],
                player_shot,
            ),
        bullets_wf(old(bullets)@) ==> bullets_wf(final(bullets)@),
        final(ids).next == old(ids).next + fire_pattern(old(parent).ship_type).len(),
        *final(parent) == reloading(*old(parent)),
        parent_entity < old(ids).next ==> forall|ships: Seq<Ship>| #[trigger]
            tables_wf(ships, old(bullets)@, *old(ids)) ==> tables_wf(
                ships,
                final(bullets)@,
                *final(ids),
            ),
{
    let ghost before = bullets@;
    let ghost craft = *parent;
    let ghost first = ids.next;
    match parent.ship_type {
        ShipType::Ship1 | ShipType::Ship3 | ShipType::Ship5 => {
            spawn_bullet(bullets, ids, parent, parent_entity, facing, 0, player_shot);
            proof {
                assert(bullets@.take(before.len() as int) =~= bullets@.drop_last());
            }
        },
        ShipType::Ship2 => {
            spawn_bullet(bullets, ids, parent, parent_entity, facing, -30_000, player_shot);
            let ghost one = bullets@;
            spawn_bullet(bullets, ids, parent, parent_entity, facing, 30_000, player_shot);
            proof {
                assert(bullets@.drop_last() == one);
                assert(one.drop_last() == before);
                assert(bullets@[before.len() as int] == one.last());
                assert(bullets@.take(before.len() as int) =~= before);
                lemma_shot_ignores_reload(
                    bullets@.last(),
                    (first + 1) as u64,
                    craft,
                    parent_entity,
                    facing,
                    30_000,
                    player_shot,
                );
            }
        },
        ShipType::Ship4 | ShipType::Ship6 => {
            spawn_bullet(bullets, ids, parent, parent_entity, facing, -50_000, player_shot);
            let ghost one = bullets@;
            spawn_bullet(bullets, ids, parent, parent_entity, facing, 0, player_shot);
            let ghost two = bullets@;
            spawn_bullet(bullets, ids, parent, parent_entity, facing, 50_000, player_shot);
            proof {
                assert(bullets@.drop_last() == two);
                assert(two.drop_last() == one);
                assert(one.drop_last() == before);
                assert(bullets@[before.len() as int] == one.last());
                assert(bullets@[before.len() as int + 1] == two.last());
                assert(bullets@.take(before.len() as int) =~= before);
                lemma_shot_ignores_reload(
                    two.last(),
                    (first + 1) as u64,
                    craft,
                    parent_entity,
                    facing,
                    0,
                    player_shot,
                );
                lemma_shot_ignores_reload(
                    bullets@.last(),
                    (first + 2) as u64,
                    reloading(craft),
                    parent_entity,
                    facing,
                    50_000,
                    player_shot,
                );
                lemma_shot_ignores_reload(
                    bullets@.last(),
                    (first + 2) as u64,
                    craft,
                    parent_entity,
                    facing,
                    50_000,
                    player_shot,
                );
            }
        },
    }
    proof {
        if bullets_wf(before) {
            assert forall|k: int| 0 <= k < bullets@.len() implies (
            #[trigger] bullets@[k]).bullet.wf() by {
                if k < before.len() {
                    assert(bullets@.take(before.len() as int)[k] == before[k]);
                }
            }
        }
    }
}

/// Every ship type fires as many shots at once as its profile has guns.
pub proof fn lemma_pattern_matches_profile(ship_type: ShipType)
    ensures
        fire_pattern(ship_type).len() == ShipProfile::of(ship_type).shots,
{
}

/// Moves every bullet by its speed along the unit vector of its heading:
/// `facings[i]` is that of the bullet at index `i`.
pub fn move_bullets(bullets: &mut Vec<BulletBundle>, facings: &Vec<Direction>)
    requires
        bullets_wf(old(bullets)@),
        facings.len() == old(bullets).len(),
        forall|i: int| 0 <= i < facings.len() ==> (#[trigger] facings[i]).wf(),
    ensures
        final(bullets).len() == old(bullets).len(),
        forall|i: int|
            0 <= i < old(bullets).len() ==> (#[trigger] final(bullets)[i]) == (BulletBundle {
                bullet: old(bullets)[i].bullet.flown(facings[i]),
                ..old(bullets)[i]
            }),
        bullets_wf(final(bullets)@),
        forall|ships: Seq<Ship>, ids: Entities| #[trigger]
            tables_wf(ships, old(bullets)@, ids) ==> tables_wf(ships, final(bullets)@, ids),
{
    let mut i: usize = 0;
    while i < bullets.len()
        invariant
            i <= bullets.len(),
            bullets.len() == old(bullets).len(),
            facings.len() == bullets.len(),
            forall|k: int| 0 <= k < facings.len() ==> (#[trigger] facings[k]).wf(),
            forall|k: int|
                0 <= k < i ==> (#[trigger] bullets[k]) == (BulletBundle {
                    bullet: old(bullets)[k].bullet.flown(facings[k]),
                    ..old(bullets)[k]
                }),
            forall|k: int| i <= k < bullets.len() ==> (#[trigger] bullets[k]) == old(bullets)[k],
            forall|k: int| 0 <= k < bullets.len() ==> (#[trigger] bullets[k]).bullet.wf(),
        decreases bullets.len() - i,
    {
        let velocity: i64 = bullets[i].bullet.velocity;
        let moved = bullets[i].bullet.position.advance(velocity, facings[i]);
        bullets[i].bullet.position = moved;
        i = i + 1;
    }
    proof {
        lemma_bullets_changed_in_place(old(bullets)@, bullets@);
    }
}

/// Advances the self-immunity window of every bullet by `delta` nanoseconds.
pub fn tick_bullet_immunity_time(delta: u64, bullets: &mut Vec<BulletBundle>)
    ensures
        final(bullets).len() == old(bullets).len(),
        forall|i: int|
            0 <= i < old(bullets).len() ==> (#[trigger] final(bullets)[i]) == (BulletBundle {
                bullet: Bullet {
                    immunity_time: old(bullets)[i].bullet.immunity_time.ticked(delta),
                    ..old(bullets)[i].bullet
                },
                ..old(bullets)[i]
            }),
        bullets_wf(old(bullets)@) ==> bullets_wf(final(bullets)@),
        forall|ships: Seq<Ship>, ids: Entities| #[trigger]
            tables_wf(ships, old(bullets)@, ids) ==> tables_wf(ships, final(bullets)@, ids),
{
    let mut i: usize = 0;
    while i < bullets.len()
        invariant
            i <= bullets.len(),
            bullets.len() == old(bullets).len(),
            forall|k: int|
                0 <= k < i ==> (#[trigger] bullets[k]) == (BulletBundle {
                    bullet: Bullet {
                        immunity_time: old(bullets)[k].bullet.immunity_time.ticked(delta),
                        ..old(bullets)[k].bullet
                    },
                    ..old(bullets)[k]
                }),
            forall|k: int| i <= k < bullets.len() ==> (#[trigger] bullets[k]) == old(bullets)[k],
        decreases bullets.len() - i,
    {
        bullets[i].bullet.immunity_time.tick(delta);
        i = i + 1;
    }
    proof {
        lemma_bullets_changed_in_place(old(bullets)@, bullets@);
        if bullets_wf(old(bullets)@) {
            assert forall|k: int| 0 <= k < bullets@.len() implies (
            #[trigger] bullets@[k]).bullet.wf() by {
                assert(old(bullets)@[k].bullet.wf());
            }
        }
    }
}

/// Whether a bullet at `position` is within range of a player at `player`.
pub open spec fn in_range(position: Point, player: Point) -> bool {
    position.distance_squared_spec(player) <= BULLET_RANGE * BULLET_RANGE
}

/// The bullets that stay when the player is at `player`.
pub open spec fn within_range(bullets: Seq<BulletBundle>, player: Point) -> Seq<BulletBundle> {
    bullets.filter(|bundle: BulletBundle| in_range(bundle.bullet.position, player))
}

/// Culls the bullets that are more than [`BULLET_RANGE`] away from the
/// player. Without exactly one player's ship nothing is culled.
pub fn kill_far_bullets(bullets: &mut Vec<BulletBundle>, ships: &Vec<Ship>)
    requires
        bullets_wf(old(bullets)@),
        forall|i: int| 0 <= i < ships.len() ==> (#[trigger] ships[i]).craft.position.wf(),
    ensures
        forall|i: int|
            is_single(ships@, Selector::Player, i) ==> final(bullets)@ == within_range(
                old(bullets)@,
                ships[i].craft.position,
            ),
        (forall|i: int| !is_single(ships@, Selector::Player, i)) ==> final(bullets)@ == old(
            bullets,
        )@,
        bullets_wf(final(bullets)@),
        forall|others: Seq<Ship>, ids: Entities| #[trigger]
            tables_wf(others, old(bullets)@, ids) ==> tables_wf(others, final(bullets)@, ids),
{
    let found = get_single(ships, Selector::Player);
    if let Some(p) = found {
        let player = ships[p].craft.position;
        proof {
            lemma_bullets_culled(
                bullets@,
                |bundle: BulletBundle| in_range(bundle.bullet.position, player),
            );
        }
        let mut kept: Vec<BulletBundle> = Vec::new();
        let mut i: usize = 0;
        while i < bullets.len()
            invariant
                i <= bullets.len(),
                player.wf(),
                bullets_wf(bullets@),
                bullets_wf(kept@),
                kept@ == within_range(bullets@.take(i as int), player),
            decreases bullets.len() - i,
        {
            proof {
                let done = bullets@.take(i as int);
                assert(bullets@.take(i + 1) =~= done.push(bullets@[i as int]));
                done.lemma_filter_push(
                    bullets@[i as int],
                    |bundle: BulletBundle| in_range(bundle.bullet.position, player),
                );
            }
            if bullets[i].bullet.position.distance_squared(&player) <= (BULLET_RANGE
                * BULLET_RANGE) as u64 {
                kept.push(bullets[i]);
            }
            i = i + 1;
        }
        proof {
            assert(bullets@.take(bullets.len() as int) =~= bullets@);
            assert forall|k: int| is_single(ships@, Selector::Player, k) implies k == p by {
                assert(ships@[p as int].selected_by(Selector::Player));
            }
        }
        *bullets = kept;
    }
}

} // verus!
