//! The roles that at most one ship may have at a time: being the player's,
//! and awaiting the player's decision.

use vstd::prelude::*;
use crate::entity::{at_most_one, Selector, Ship};
use crate::handles::{is_selection_of, lemma_filter_selects};

verus! {

/// At most one ship is the player's, and at most one awaits the player's
/// decision.
pub open spec fn roles_wf(ships: Seq<Ship>) -> bool {
    at_most_one(ships, Selector::Player) && at_most_one(ships, Selector::Pending)
}

/// Ships that change in place without any of them taking up or giving up
/// what `selector` asks for are at most one of that kind if they were.
pub proof fn lemma_kind_kept_in_place(before: Seq<Ship>, after: Seq<Ship>, selector: Selector)
    requires
        after.len() == before.len(),
        forall|i: int|
            0 <= i < before.len() ==> (#[trigger] after[i]).selected_by(selector)
                == before[i].selected_by(selector),
        at_most_one(before, selector),
    ensures
        at_most_one(after, selector),
{
    assert forall|i: int, j: int|
        0 <= i < after.len() && 0 <= j < after.len() && (#[trigger] after[i]).selected_by(selector)
            && (#[trigger] after[j]).selected_by(selector) implies i == j by {
        assert(before[i].selected_by(selector));
        assert(before[j].selected_by(selector));
    }
}

/// Ships that change in place, each keeping the player's mark and the mark of
/// a pending decision as it had them, keep the roles in order.
pub proof fn lemma_roles_kept_in_place(before: Seq<Ship>, after: Seq<Ship>)
    requires
        after.len() == before.len(),
        forall|i: int|
            0 <= i < before.len() ==> (#[trigger] after[i]).player == before[i].player
                && after[i].pending == before[i].pending,
    ensures
        roles_wf(before) ==> roles_wf(after),
{
    if roles_wf(before) {
        lemma_kind_kept_in_place(before, after, Selector::Player);
        lemma_kind_kept_in_place(before, after, Selector::Pending);
    }
}

/// Ships that are selected from a table are at most one of a kind if the
/// ships of the table were.
pub proof fn lemma_kind_after_cull(before: Seq<Ship>, after: Seq<Ship>, selector: Selector)
    requires
        is_selection_of(after, before),
        at_most_one(before, selector),
    ensures
        at_most_one(after, selector),
{
    let places = choose|places: Seq<int>|
        {
            &&& places.len() == after.len()
            &&& forall|k: int|
                0 <= k < places.len() ==> 0 <= #[trigger] places[k] < before.len() && after[k]
                    == before[places[k]]
            &&& forall|k: int, l: int|
                0 <= k < l < places.len() ==> #[trigger] places[k] < #[trigger] places[l]
        };
    assert forall|i: int, j: int|
        0 <= i < after.len() && 0 <= j < after.len() && (#[trigger] after[i]).selected_by(selector)
            && (#[trigger] after[j]).selected_by(selector) implies i == j by {
        assert(after[i] == before[places[i]]);
        assert(after[j] == before[places[j]]);
        assert(before[places[i]].selected_by(selector));
        assert(before[places[j]].selected_by(selector));
        assert(places[i] == places[j]);
        if i < j {
            assert(places[i] < places[j]);
        } else if j < i {
            assert(places[j] < places[i]);
        }
    }
}

/// Taking ships out of the table keeps the roles in order.
pub proof fn lemma_roles_after_cull(before: Seq<Ship>, keep: spec_fn(Ship) -> bool)
    ensures
        roles_wf(before) ==> roles_wf(before.filter(keep)),
{
    lemma_filter_selects(before, keep);
    if roles_wf(before) {
        lemma_kind_after_cull(before, before.filter(keep), Selector::Player);
        lemma_kind_after_cull(before, before.filter(keep), Selector::Pending);
    }
}

/// A ship that joins the table and is not of the kind that `selector` asks
/// for leaves at most one ship of that kind if there was at most one.
pub proof fn lemma_kind_after_spawn(before: Seq<Ship>, ship: Ship, selector: Selector)
    requires
        !ship.selected_by(selector),
        at_most_one(before, selector),
    ensures
        at_most_one(before.push(ship), selector),
{
    let after = before.push(ship);
    assert forall|i: int, j: int|
        0 <= i < after.len() && 0 <= j < after.len() && (#[trigger] after[i]).selected_by(selector)
            && (#[trigger] after[j]).selected_by(selector) implies i == j by {
        assert(i < before.len());
        assert(j < before.len());
        assert(after[i] == before[i]);
        assert(after[j] == before[j]);
    }
}

/// A ship that joins the table without a role keeps the roles in order.
pub proof fn lemma_roles_after_spawn(before: Seq<Ship>, ship: Ship)
    requires
        ship.player is None,
        ship.pending is None,
    ensures
        roles_wf(before) ==> roles_wf(before.push(ship)),
{
    if roles_wf(before) {
        lemma_kind_after_spawn(before, ship, Selector::Player);
        lemma_kind_after_spawn(before, ship, Selector::Pending);
    }
}

} // verus!
