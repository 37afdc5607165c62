//! Soundness of the entity tables: handles are handed out once, each table
//! lists them in the order of their issue, and a handle that has left a
//! table never comes back to mean something else.

use vstd::prelude::*;
use crate::collision::{is_first_listed, is_immune, is_listed};
use crate::entity::{BulletBundle, Entities, Ship};

verus! {

/// The two tables are sound with respect to the allocator `ids`. Every
/// handle that a table lists, and every handle that a bullet names as its
/// shooter, has been handed out. Each table lists its handles in the order
/// in which they were handed out, so none twice. No handle is listed in both
/// tables.
pub open spec fn tables_wf(ships: Seq<Ship>, bullets: Seq<BulletBundle>, ids: Entities) -> bool {
    &&& forall|i: int| 0 <= i < ships.len() ==> (#[trigger] ships[i]).entity < ids.next
    &&& forall|i: int|
        0 <= i < bullets.len() ==> (#[trigger] bullets[i]).entity < ids.next
            && bullets[i].bullet.shooter < ids.next
    &&& forall|i: int, j: int|
        0 <= i < j < ships.len() ==> (#[trigger] ships[i]).entity < (#[trigger] ships[j]).entity
    &&& forall|i: int, j: int|
        0 <= i < j < bullets.len() ==> (#[trigger] bullets[i]).entity
            < (#[trigger] bullets[j]).entity
    &&& forall|i: int, j: int|
        0 <= i < ships.len() && 0 <= j < bullets.len() ==> (#[trigger] ships[i]).entity
            != (#[trigger] bullets[j]).entity
}

/// `after` lists, in the same order, some of what `before` lists.
pub open spec fn is_selection_of<A>(after: Seq<A>, before: Seq<A>) -> bool {
    exists|places: Seq<int>|
        {
            &&& places.len() == after.len()
            &&& forall|k: int|
                0 <= k < places.len() ==> 0 <= #[trigger] places[k] < before.len() && after[k]
                    == before[places[k]]
            &&& forall|k: int, l: int|
                0 <= k < l < places.len() ==> #[trigger] places[k] < #[trigger] places[l]
        }
}

/// Filtering a sequence selects from it.
pub proof fn lemma_filter_selects<A>(before: Seq<A>, keep: spec_fn(A) -> bool)
    ensures
        is_selection_of(before.filter(keep), before),
    decreases before.len(),
{
    reveal(Seq::filter);
    if before.len() == 0 {
        let places = Seq::<int>::empty();
        assert(places.len() == before.filter(keep).len());
        assert(is_selection_of(before.filter(keep), before));
    } else {
        let rest = before.drop_last();
        lemma_filter_selects(rest, keep);
        let inner = choose|places: Seq<int>|
            {
                &&& places.len() == rest.filter(keep).len()
                &&& forall|k: int|
                    0 <= k < places.len() ==> 0 <= #[trigger] places[k] < rest.len()
                        && rest.filter(keep)[k] == rest[places[k]]
                &&& forall|k: int, l: int|
                    0 <= k < l < places.len() ==> #[trigger] places[k] < #[trigger] places[l]
            };
        let places = if keep(before.last()) {
            inner.push(before.len() - 1)
        } else {
            inner
        };
        let after = before.filter(keep);
        assert(places.len() == after.len());
        assert forall|k: int| 0 <= k < places.len() implies 0 <= #[trigger] places[k]
            < before.len() && after[k] == before[places[k]] by {
            if k < inner.len() {
                assert(rest.filter(keep)[k] == rest[inner[k]]);
            }
        }
        assert forall|k: int, l: int| 0 <= k < l < places.len() implies #[trigger] places[k]
            < #[trigger] places[l] by {
            if l < inner.len() {
                assert(inner[k] < inner[l]);
            } else {
                assert(inner[k] < rest.len());
            }
        }
        assert(is_selection_of(after, before));
    }
}

/// Taking ships out of the table keeps the tables sound.
pub proof fn lemma_fewer_ships_stay_sound(
    before: Seq<Ship>,
    after: Seq<Ship>,
    bullets: Seq<BulletBundle>,
    ids: Entities,
)
    requires
        tables_wf(before, bullets, ids),
        is_selection_of(after, before),
    ensures
        tables_wf(after, bullets, ids),
{
    let places = choose|places: Seq<int>|
        {
            &&& places.len() == after.len()
            &&& forall|k: int|
                0 <= k < places.len() ==> 0 <= #[trigger] places[k] < before.len() && after[k]
                    == before[places[k]]
            &&& forall|k: int, l: int|
                0 <= k < l < places.len() ==> #[trigger] places[k] < #[trigger] places[l]
        };
    assert forall|i: int| 0 <= i < after.len() implies (#[trigger] after[i]).entity < ids.next by {
        assert(after[i] == before[places[i]]);
    }
    assert forall|i: int, j: int| 0 <= i < j < after.len() implies (#[trigger] after[i]).entity
        < (#[trigger] after[j]).entity by {
        assert(places[i] < places[j]);
        assert(after[i] == before[places[i]]);
        assert(after[j] == before[places[j]]);
    }
    assert forall|i: int, j: int|
        0 <= i < after.len() && 0 <= j < bullets.len() implies (#[trigger] after[i]).entity
        != (#[trigger] bullets[j]).entity by {
        assert(after[i] == before[places[i]]);
    }
}

/// Taking bullets out of the table keeps the tables sound.
pub proof fn lemma_fewer_bullets_stay_sound(
    ships: Seq<Ship>,
    before: Seq<BulletBundle>,
    after: Seq<BulletBundle>,
    ids: Entities,
)
    requires
        tables_wf(ships, before, ids),
        is_selection_of(after, before),
    ensures
        tables_wf(ships, after, ids),
{
    let places = choose|places: Seq<int>|
        {
            &&& places.len() == after.len()
            &&& forall|k: int|
                0 <= k < places.len() ==> 0 <= #[trigger] places[k] < before.len() && after[k]
                    == before[places[k]]
            &&& forall|k: int, l: int|
                0 <= k < l < places.len() ==> #[trigger] places[k] < #[trigger] places[l]
        };
    assert forall|i: int| 0 <= i < after.len() implies (#[trigger] after[i]).entity < ids.next
        && after[i].bullet.shooter < ids.next by {
        assert(after[i] == before[places[i]]);
    }
    assert forall|i: int, j: int| 0 <= i < j < after.len() implies (#[trigger] after[i]).entity
        < (#[trigger] after[j]).entity by {
        assert(places[i] < places[j]);
        assert(after[i] == before[places[i]]);
        assert(after[j] == before[places[j]]);
    }
    assert forall|i: int, j: int|
        0 <= i < ships.len() && 0 <= j < after.len() implies (#[trigger] ships[i]).entity
        != (#[trigger] after[j]).entity by {
        assert(after[j] == before[places[j]]);
    }
}

/// Changing ships and bullets in place, each keeping its handle and each
/// bullet its shooter, keeps the tables sound.
pub proof fn lemma_same_handles_stay_sound(
    ships: Seq<Ship>,
    changed_ships: Seq<Ship>,
    bullets: Seq<BulletBundle>,
    changed_bullets: Seq<BulletBundle>,
    ids: Entities,
)
    requires
        tables_wf(ships, bullets, ids),
        changed_ships.len() == ships.len(),
        changed_bullets.len() == bullets.len(),
        forall|i: int|
            0 <= i < ships.len() ==> (#[trigger] changed_ships[i]).entity == ships[i].entity,
        forall|i: int|
            0 <= i < bullets.len() ==> (#[trigger] changed_bullets[i]).entity == bullets[i].entity
                && changed_bullets[i].bullet.shooter == bullets[i].bullet.shooter,
    ensures
        tables_wf(changed_ships, changed_bullets, ids),
{
    assert forall|i: int| 0 <= i < changed_ships.len() implies (#[trigger] changed_ships[i]).entity
        < ids.next by {
        assert(ships[i].entity < ids.next);
    }
    assert forall|i: int| 0 <= i < changed_bullets.len() implies (
    #[trigger] changed_bullets[i]).entity < ids.next && changed_bullets[i].bullet.shooter
        < ids.next by {
        assert(bullets[i].entity < ids.next);
    }
    assert forall|i: int, j: int| 0 <= i < j < changed_ships.len() implies (
    #[trigger] changed_ships[i]).entity < (#[trigger] changed_ships[j]).entity by {
        assert(ships[i].entity < ships[j].entity);
    }
    assert forall|i: int, j: int| 0 <= i < j < changed_bullets.len() implies (
    #[trigger] changed_bullets[i]).entity < (#[trigger] changed_bullets[j]).entity by {
        assert(bullets[i].entity < bullets[j].entity);
    }
    assert forall|i: int, j: int|
        0 <= i < changed_ships.len() && 0 <= j < changed_bullets.len() implies (
    #[trigger] changed_ships[i]).entity != (#[trigger] changed_bullets[j]).entity by {
        assert(ships[i].entity != bullets[j].entity);
    }
}

/// A ship that joins the table under the next handle keeps the tables sound.
pub proof fn lemma_new_ship_stays_sound(
    ships: Seq<Ship>,
    bullets: Seq<BulletBundle>,
    ids: Entities,
    ship: Ship,
)
    requires
        tables_wf(ships, bullets, ids),
        ship.entity == ids.next,
        ids.next < u64::MAX,
    ensures
        tables_wf(ships.push(ship), bullets, Entities { next: (ids.next + 1) as u64 }),
{
    let grown = ships.push(ship);
    assert forall|i: int, j: int| 0 <= i < j < grown.len() implies (#[trigger] grown[i]).entity
        < (#[trigger] grown[j]).entity by {
        assert(grown[i] == ships[i]);
        if j < ships.len() {
            assert(grown[j] == ships[j]);
        }
    }
    assert forall|i: int, j: int|
        0 <= i < grown.len() && 0 <= j < bullets.len() implies (#[trigger] grown[i]).entity
        != (#[trigger] bullets[j]).entity by {
        if i < ships.len() {
            assert(grown[i] == ships[i]);
        }
    }
    assert forall|i: int| 0 <= i < grown.len() implies (#[trigger] grown[i]).entity < ids.next
        + 1 by {
        if i < ships.len() {
            assert(grown[i] == ships[i]);
        }
    }
}

/// A bullet that joins the table under the next handle, fired by a ship
/// whose handle has been handed out, keeps the tables sound.
pub proof fn lemma_new_bullet_stays_sound(
    ships: Seq<Ship>,
    bullets: Seq<BulletBundle>,
    ids: Entities,
    bundle: BulletBundle,
)
    requires
        tables_wf(ships, bullets, ids),
        bundle.entity == ids.next,
        bundle.bullet.shooter < ids.next,
        ids.next < u64::MAX,
    ensures
        tables_wf(ships, bullets.push(bundle), Entities { next: (ids.next + 1) as u64 }),
{
    let grown = bullets.push(bundle);
    assert forall|i: int, j: int| 0 <= i < j < grown.len() implies (#[trigger] grown[i]).entity
        < (#[trigger] grown[j]).entity by {
        assert(grown[i] == bullets[i]);
        if j < bullets.len() {
            assert(grown[j] == bullets[j]);
        }
    }
    assert forall|i: int, j: int|
        0 <= i < ships.len() && 0 <= j < grown.len() implies (#[trigger] ships[i]).entity
        != (#[trigger] grown[j]).entity by {
        if j < bullets.len() {
            assert(grown[j] == bullets[j]);
        }
    }
    assert forall|i: int| 0 <= i < grown.len() implies (#[trigger] grown[i]).entity < ids.next + 1
        && grown[i].bullet.shooter < ids.next + 1 by {
        if i < bullets.len() {
            assert(grown[i] == bullets[i]);
        }
    }
}

/// In sound tables a handle names at most one ship.
pub proof fn lemma_handle_names_one_ship(
    ships: Seq<Ship>,
    bullets: Seq<BulletBundle>,
    ids: Entities,
    i: int,
    j: int,
)
    requires
        tables_wf(ships, bullets, ids),
        0 <= i < ships.len(),
        0 <= j < ships.len(),
        ships[i].entity == ships[j].entity,
    ensures
        i == j,
        is_first_listed(ships, ships[i].entity, i),
{
    if i < j {
        assert(ships[i].entity < ships[j].entity);
    } else if j < i {
        assert(ships[j].entity < ships[i].entity);
    }
    assert forall|k: int| 0 <= k < i implies (#[trigger] ships[k]).entity != ships[i].entity by {
        assert(ships[k].entity < ships[i].entity);
    }
}

/// Stale references: in sound tables no bullet names a handle that has yet
/// to be handed out, so the next ship to be spawned is not shielded by any
/// bullet in flight, nor is it listed already.
pub proof fn lemma_next_handle_is_unclaimed(
    ships: Seq<Ship>,
    bullets: Seq<BulletBundle>,
    ids: Entities,
)
    requires
        tables_wf(ships, bullets, ids),
    ensures
        !is_immune(bullets, ids.next),
        !is_listed(ships, ids.next),
{
}

/// Ships that change in place, each keeping its handle, keep sound whatever
/// tables they were sound in.
pub proof fn lemma_ships_changed_in_place(before: Seq<Ship>, after: Seq<Ship>)
    requires
        after.len() == before.len(),
        forall|i: int| 0 <= i < before.len() ==> (#[trigger] after[i]).entity == before[i].entity,
    ensures
        forall|bullets: Seq<BulletBundle>, ids: Entities| #[trigger]
            tables_wf(before, bullets, ids) ==> tables_wf(after, bullets, ids),
{
    assert forall|bullets: Seq<BulletBundle>, ids: Entities| #[trigger]
        tables_wf(before, bullets, ids) implies tables_wf(after, bullets, ids) by {
        lemma_same_handles_stay_sound(before, after, bullets, bullets, ids);
    }
}

/// Bullets that change in place, each keeping its handle and its shooter,
/// keep sound whatever tables they were sound in.
pub proof fn lemma_bullets_changed_in_place(before: Seq<BulletBundle>, after: Seq<BulletBundle>)
    requires
        after.len() == before.len(),
        forall|i: int|
            0 <= i < before.len() ==> (#[trigger] after[i]).entity == before[i].entity
                && after[i].bullet.shooter == before[i].bullet.shooter,
    ensures
        forall|ships: Seq<Ship>, ids: Entities| #[trigger]
            tables_wf(ships, before, ids) ==> tables_wf(ships, after, ids),
{
    assert forall|ships: Seq<Ship>, ids: Entities| #[trigger]
        tables_wf(ships, before, ids) implies tables_wf(ships, after, ids) by {
        lemma_same_handles_stay_sound(ships, ships, before, after, ids);
    }
}

/// Ships that are left after some have been filtered out keep sound
/// whatever tables they were sound in.
pub proof fn lemma_ships_culled(before: Seq<Ship>, keep: spec_fn(Ship) -> bool)
    ensures
        forall|bullets: Seq<BulletBundle>, ids: Entities| #[trigger]
            tables_wf(before, bullets, ids) ==> tables_wf(before.filter(keep), bullets, ids),
{
    lemma_filter_selects(before, keep);
    assert forall|bullets: Seq<BulletBundle>, ids: Entities| #[trigger]
        tables_wf(before, bullets, ids) implies tables_wf(before.filter(keep), bullets, ids) by {
        lemma_fewer_ships_stay_sound(before, before.filter(keep), bullets, ids);
    }
}

/// Bullets that are left after some have been filtered out keep sound
/// whatever tables they were sound in.
pub proof fn lemma_bullets_culled(before: Seq<BulletBundle>, keep: spec_fn(BulletBundle) -> bool)
    ensures
        forall|ships: Seq<Ship>, ids: Entities| #[trigger]
            tables_wf(ships, before, ids) ==> tables_wf(ships, before.filter(keep), ids),
{
    lemma_filter_selects(before, keep);
    assert forall|ships: Seq<Ship>, ids: Entities| #[trigger]
        tables_wf(ships, before, ids) implies tables_wf(ships, before.filter(keep), ids) by {
        lemma_fewer_bullets_stay_sound(ships, before, before.filter(keep), ids);
    }
}

} // verus!
