//! What holds of the store's operations taken together.

use vstd::prelude::*;
use crate::color::cyclic_color;
use crate::events::{DeleteLayerEvent, LayerEvent, MapClickedEvent, MoveLayerEvent,
    ToggleLayerVisibilityEvent};
use crate::geometry::{Point, geometry_bounding_rect};
use crate::invariants::{lemma_added_wf, lemma_removed_wf};
use crate::layer::{Layer, LayerId, UnassignedLayer};
use crate::state::{MoveDirection, StoreState, bounds_of_all, distinct_ids, has_id, hits, index_of,
    layer_of,
    lemma_index_of, lemma_index_of_distinct, lemma_index_of_found, top_hit};
use crate::systems::{click_events, created_all, deleted_all, move_events, toggle_events,
    toggled_all};

verus! {

/// In a well-formed store the bounding rectangles of every layer are those
/// of its geometries, projected and unprojected.
pub proof fn lemma_bounding_rects_match(state: StoreState, index: int)
    requires
        state.wf(),
        0 <= index < state.layers.len(),
    ensures
        geometry_bounding_rect(state.layers[index].projected_feature.geometry) == Some(
            state.layers[index].projected_feature.bounding_rect,
        ),
        geometry_bounding_rect(state.layers[index].unprojected_feature.geometry) == Some(
            state.layers[index].unprojected_feature.bounding_rect,
        ),
{
    assert(state.layers[index].wf());
}

/// Adding records one after another keeps the store well formed, puts one
/// layer per record on top of the old ones in the order of the records,
/// and numbers them on from the store's count of created layers: so the
/// new identifiers differ from each other and from all old ones, and the
/// colours walk the palette in a cycle. The bounds afterwards are the
/// union of the bounds before with the projected bounding rectangle of
/// each record.
pub proof fn lemma_added_all(state: StoreState, candidates: Seq<UnassignedLayer>)
    requires
        state.wf(),
        state.issued + candidates.len() <= u64::MAX,
        forall|k: int| 0 <= k < candidates.len() ==> (#[trigger] candidates[k]).wf(),
    ensures
        state.added_all(candidates).wf(),
        state.added_all(candidates).selected == state.selected,
        state.added_all(candidates).issued == state.issued + candidates.len(),
        state.added_all(candidates).layers.len() == state.layers.len() + candidates.len(),
        forall|k: int|
            0 <= k < state.layers.len() ==> state.added_all(candidates).layers[k]
                == #[trigger] state.layers[k],
        forall|k: int|
            0 <= k < candidates.len() ==> state.added_all(candidates).layers[state.layers.len()
                + k] == layer_of(#[trigger] candidates[k], (state.issued + k) as nat),
        distinct_ids(state.added_all(candidates).layers),
        state.added_all(candidates).bounds == bounds_of_all(state.bounds, candidates),
    decreases candidates.len(),
{
    if candidates.len() > 0 {
        let earlier = candidates.drop_last();
        lemma_added_all(state, earlier);
        let before = state.added_all(earlier);
        lemma_added_wf(before, candidates.last());
        let after = state.added_all(candidates);
        assert forall|k: int| 0 <= k < candidates.len() implies after.layers[state.layers.len()
            + k] == layer_of(#[trigger] candidates[k], (state.issued + k) as nat) by {
            if k < earlier.len() {
                assert(earlier[k] == candidates[k]);
            }
        }
    }
}

/// A store that starts empty and is given `n` records holds `n` layers
/// with `n` different identifiers, and its bounds are the union of their
/// projected bounding rectangles.
pub proof fn lemma_count_after_adds(candidates: Seq<UnassignedLayer>)
    requires
        candidates.len() <= u64::MAX,
        forall|k: int| 0 <= k < candidates.len() ==> (#[trigger] candidates[k]).wf(),
    ensures
        StoreState::empty().added_all(candidates).layers.len() == candidates.len(),
        distinct_ids(StoreState::empty().added_all(candidates).layers),
        StoreState::empty().added_all(candidates).bounds == bounds_of_all(None, candidates),
{
    lemma_added_all(StoreState::empty(), candidates);
}

/// While the store has identifiers left, offering records to it adds every
/// one of them and reports one created layer per record, in order, under
/// the identifiers that the store hands out.
pub proof fn lemma_created_all_adds_all(state: StoreState, candidates: Seq<UnassignedLayer>)
    requires
        state.issued + candidates.len() <= u64::MAX,
    ensures
        created_all(state, candidates).state == state.added_all(candidates),
        created_all(state, candidates).events == Seq::new(
            candidates.len(),
            |k: int| LayerEvent::Created(LayerId((state.issued + k) as u64)),
        ),
    decreases candidates.len(),
{
    let reported = Seq::new(
        candidates.len(),
        |k: int| LayerEvent::Created(LayerId((state.issued + k) as u64)),
    );
    if candidates.len() > 0 {
        let earlier = candidates.drop_last();
        lemma_created_all_adds_all(state, earlier);
        lemma_added_all_issued(state, earlier);
        let before = Seq::new(
            earlier.len(),
            |k: int| LayerEvent::Created(LayerId((state.issued + k) as u64)),
        );
        assert(created_all(state, candidates).events =~= before.push(
            LayerEvent::Created(LayerId((state.issued + earlier.len()) as u64)),
        ));
        assert(created_all(state, candidates).events =~= reported);
    } else {
        assert(created_all(state, candidates).events =~= reported);
    }
}

/// Each added record raises the store's count of created layers by one.
pub proof fn lemma_added_all_issued(state: StoreState, candidates: Seq<UnassignedLayer>)
    ensures
        state.added_all(candidates).issued == state.issued + candidates.len(),
    decreases candidates.len(),
{
    if candidates.len() > 0 {
        lemma_added_all_issued(state, candidates.drop_last());
    }
}

/// The layer that was added last is found under the identifier that the
/// store gave it: it is the record's layer, visible, in the palette colour
/// that follows from the number of layers created before it.
pub proof fn lemma_get_after_add(state: StoreState, candidate: UnassignedLayer)
    requires
        state.wf(),
        state.issued < u64::MAX,
    ensures
        state.added(candidate).get(LayerId(state.issued as u64)) == Some(
            layer_of(candidate, state.issued),
        ),
        layer_of(candidate, state.issued).visible,
        layer_of(candidate, state.issued).color == cyclic_color(state.issued),
{
    let after = state.added(candidate).layers;
    let id = LayerId(state.issued as u64);
    assert forall|j: int| 0 <= j < state.layers.len() implies (#[trigger] after[j]).id != id by {
        assert(after[j] == state.layers[j]);
        assert(state.layers[j].id.0 < state.issued);
    }
    lemma_index_of(after, id, state.layers.len() as int);
}

/// One change of what a store holds: a record is added or a layer removed.
pub enum StoreStep {
    Add(UnassignedLayer),
    Remove(LayerId),
}

/// The store after the steps were taken in order.
pub open spec fn stepped_all(state: StoreState, steps: Seq<StoreStep>) -> StoreState
    decreases steps.len(),
{
    if steps.len() == 0 {
        state
    } else {
        let before = stepped_all(state, steps.drop_last());
        match steps.last() {
            StoreStep::Add(candidate) => before.added(candidate),
            StoreStep::Remove(id) => before.removed(id),
        }
    }
}

/// The identifiers that the store gave to the records that were added on
/// the way, in order.
pub open spec fn handed_out(state: StoreState, steps: Seq<StoreStep>) -> Seq<LayerId>
    decreases steps.len(),
{
    if steps.len() == 0 {
        Seq::empty()
    } else {
        let before = stepped_all(state, steps.drop_last());
        match steps.last() {
            StoreStep::Add(_) => handed_out(state, steps.drop_last()).push(
                LayerId(before.issued as u64),
            ),
            StoreStep::Remove(_) => handed_out(state, steps.drop_last()),
        }
    }
}

/// An identifier is never given twice, whatever is removed in between:
/// over any run of adds and removes the store stays well formed and the
/// identifiers it gives count on from the number of layers it had created
/// before. So they differ from each other, from every identifier in the
/// store at the start, and from every identifier below that number.
pub proof fn lemma_ids_are_never_reused(state: StoreState, steps: Seq<StoreStep>)
    requires
        state.wf(),
        state.issued + steps.len() <= u64::MAX,
        forall|k: int|
            0 <= k < steps.len() && steps[k] is Add ==> (#[trigger] steps[k])->Add_0.wf(),
    ensures
        stepped_all(state, steps).wf(),
        handed_out(state, steps).len() <= steps.len(),
        stepped_all(state, steps).issued == state.issued + handed_out(state, steps).len(),
        forall|k: int|
            0 <= k < handed_out(state, steps).len() ==> (#[trigger] handed_out(state, steps)[k])
                == LayerId((state.issued + k) as u64),
        forall|k: int, l: int|
            0 <= k < l < handed_out(state, steps).len() ==> handed_out(state, steps)[k]
                != handed_out(state, steps)[l],
        forall|k: int|
            0 <= k < handed_out(state, steps).len() ==> !has_id(
                state.layers,
                #[trigger] handed_out(state, steps)[k],
            ),
    decreases steps.len(),
{
    if steps.len() > 0 {
        let earlier = steps.drop_last();
        assert forall|k: int| 0 <= k < earlier.len() && earlier[k] is Add implies (
        #[trigger] earlier[k])->Add_0.wf() by {
            assert(earlier[k] == steps[k]);
        }
        lemma_ids_are_never_reused(state, earlier);
        let before = stepped_all(state, earlier);
        match steps.last() {
            StoreStep::Add(candidate) => {
                assert(steps[steps.len() - 1] is Add);
                lemma_added_wf(before, candidate);
            },
            StoreStep::Remove(id) => {
                lemma_removed_wf(before, id);
                lemma_index_of_found(before.layers, id);
            },
        }
    }
    let given = handed_out(state, steps);
    assert forall|k: int| 0 <= k < given.len() implies !has_id(state.layers, #[trigger] given[k]) by {
        assert(given[k] == LayerId((state.issued + k) as u64));
        assert forall|j: int| 0 <= j < state.layers.len() implies (#[trigger] state.layers[j]).id
            != given[k] by {
            assert(state.layers[j].id.0 < state.issued);
        }
    }
}

/// A request to delete a layer that the store does not hold changes
/// nothing and reports nothing; one for a layer that it holds removes the
/// layer and reports it once.
pub proof fn lemma_delete_reports_removals(state: StoreState, id: LayerId)
    ensures
        deleted_all(state, seq![DeleteLayerEvent(id)]).state == state.removed(id),
        !has_id(state.layers, id) ==> deleted_all(state, seq![DeleteLayerEvent(id)]).state == state
            && deleted_all(state, seq![DeleteLayerEvent(id)]).events == Seq::<LayerEvent>::empty(),
        has_id(state.layers, id) ==> deleted_all(state, seq![DeleteLayerEvent(id)]).events
            == seq![LayerEvent::Deleted(id)],
{
    let one = seq![DeleteLayerEvent(id)];
    assert(one.drop_last() =~= Seq::<DeleteLayerEvent>::empty());
    assert(one.last() == DeleteLayerEvent(id));
    let none = deleted_all(state, one.drop_last());
    assert(none.state == state && none.events =~= Seq::<LayerEvent>::empty());
    if has_id(state.layers, id) {
        assert(deleted_all(state, one).events =~= seq![LayerEvent::Deleted(id)]);
    } else {
        assert(deleted_all(state, one).events =~= Seq::<LayerEvent>::empty());
    }
}

/// After a layer was removed the store has no layer with its identifier,
/// and a selection of that layer is gone.
pub proof fn lemma_get_after_remove(state: StoreState, id: LayerId)
    requires
        state.wf(),
    ensures
        state.removed(id).get(id) is None,
        state.removed(id).selected != Some(id),
{
    lemma_removed_wf(state, id);
    lemma_index_of_found(state.layers, id);
    if state.removed(id).selected == Some(id) {
        assert(has_id(state.removed(id).layers, id));
    }
}

/// Removing an identifier that the store does not hold changes nothing;
/// removing one that it holds takes away exactly one layer. Either way the
/// bounds stay as they were.
pub proof fn lemma_remove_count(state: StoreState, id: LayerId)
    requires
        state.wf(),
    ensures
        !has_id(state.layers, id) ==> state.removed(id) == state,
        has_id(state.layers, id) ==> state.removed(id).layers.len() + 1 == state.layers.len(),
        state.removed(id).bounds == state.bounds,
{
    lemma_index_of_found(state.layers, id);
}

/// Moving the topmost layer up, or the bottommost layer down, changes
/// nothing and reports nothing.
pub proof fn lemma_move_at_the_ends(state: StoreState)
    requires
        state.wf(),
        state.layers.len() > 0,
    ensures
        state.moved(state.layers.last().id, MoveDirection::Up) == state,
        move_events(state, MoveLayerEvent(state.layers.last().id, MoveDirection::Up))
            == Seq::<LayerEvent>::empty(),
        state.moved(state.layers.first().id, MoveDirection::Down) == state,
        move_events(state, MoveLayerEvent(state.layers.first().id, MoveDirection::Down))
            == Seq::<LayerEvent>::empty(),
{
    lemma_index_of_distinct(state.layers, state.layers.len() - 1);
    lemma_index_of_distinct(state.layers, 0);
}

/// Moving a layer that is not at the end it moves towards exchanges it
/// with its neighbour, leaves every other layer in place, and reports
/// both layers, the moved one first.
pub proof fn lemma_move_exchanges(state: StoreState, index: int, direction: MoveDirection)
    requires
        state.wf(),
        0 <= index < state.layers.len(),
        state.neighbour(index, direction) is Some,
    ensures
        ({
            let other = state.neighbour(index, direction)->Some_0;
            let after = state.moved(state.layers[index].id, direction);
            &&& other == if direction == MoveDirection::Up {
                index + 1
            } else {
                index - 1
            }
            &&& after.layers.len() == state.layers.len()
            &&& after.layers[index] == state.layers[other]
            &&& after.layers[other] == state.layers[index]
            &&& forall|k: int|
                0 <= k < state.layers.len() && k != index && k != other ==> after.layers[k]
                    == #[trigger] state.layers[k]
            &&& after.selected == state.selected
            &&& move_events(state, MoveLayerEvent(state.layers[index].id, direction)) == seq![
                LayerEvent::ZIndexUpdated(state.layers[index].id),
                LayerEvent::ZIndexUpdated(state.layers[other].id),
            ]
        }),
{
    lemma_index_of_distinct(state.layers, index);
}

/// A click selects the topmost layer that contains the point: the layer
/// at `index` where it contains the point and no layer above it does.
pub proof fn lemma_topmost_wins(layers: Seq<Layer>, point: Point, index: int)
    requires
        0 <= index < layers.len(),
        layers[index].spec_contains(point),
        forall|j: int| index < j < layers.len() ==> !(#[trigger] layers[j]).spec_contains(point),
    ensures
        top_hit(layers, point) == Some(layers[index].id),
    decreases layers.len(),
{
    if index < layers.len() - 1 {
        assert(!layers[layers.len() - 1].spec_contains(point));
        let below = layers.drop_last();
        assert(below[index] == layers[index]);
        assert forall|j: int| index < j < below.len() implies !(#[trigger] below[j]).spec_contains(
            point,
        ) by {
            assert(below[j] == layers[j]);
        }
        lemma_topmost_wins(below, point, index);
    }
}

/// A click on a point that no layer contains selects nothing.
pub proof fn lemma_click_outside(layers: Seq<Layer>, point: Point)
    requires
        forall|j: int| 0 <= j < layers.len() ==> !(#[trigger] layers[j]).spec_contains(point),
    ensures
        top_hit(layers, point) is None,
        hits(layers, point).len() == 0,
    decreases layers.len(),
{
    if layers.len() > 0 {
        assert(!layers[layers.len() - 1].spec_contains(point));
        let below = layers.drop_last();
        assert forall|j: int| 0 <= j < below.len() implies !(#[trigger] below[j]).spec_contains(
            point,
        ) by {
            assert(below[j] == layers[j]);
        }
        lemma_click_outside(below, point);
    }
}

/// A click on a point that exactly one layer contains selects that
/// layer, and reports a change of selection unless it was selected before.
pub proof fn lemma_click_single_layer(state: StoreState, point: Point, index: int)
    requires
        0 <= index < state.layers.len(),
        state.layers[index].spec_contains(point),
        forall|j: int|
            0 <= j < state.layers.len() && j != index ==> !(#[trigger] state.layers[j]).spec_contains(
                point,
            ),
    ensures
        state.clicked(point).selected == Some(state.layers[index].id),
        state.selected != Some(state.layers[index].id) ==> click_events(
            state,
            MapClickedEvent(point),
        ) == seq![LayerEvent::SelectionChanged(Some(state.layers[index].id))],
{
    lemma_topmost_wins(state.layers, point, index);
}

/// A second click on the same point changes nothing and reports nothing.
pub proof fn lemma_click_again(state: StoreState, point: Point)
    ensures
        state.clicked(point).clicked(point) == state.clicked(point),
        click_events(state.clicked(point), MapClickedEvent(point)) == Seq::<LayerEvent>::empty(),
{
}

/// Toggling the visibility of a layer twice restores the store.
pub proof fn lemma_toggle_twice(state: StoreState, id: LayerId)
    requires
        state.wf(),
    ensures
        state.toggled(id).toggled(id) == state,
{
    lemma_index_of_found(state.layers, id);
    match index_of(state.layers, id) {
        None => {},
        Some(i) => {
            let once = state.toggled(id);
            assert(once.layers[i].id == id);
            assert forall|j: int| 0 <= j < i implies (#[trigger] once.layers[j]).id != id by {
                assert(once.layers[j] == state.layers[j]);
            }
            lemma_index_of(once.layers, id, i);
            assert(once.toggled(id).layers =~= state.layers);
        },
    }
}

/// Two toggles of a layer that the store holds report one change in each
/// direction: hidden then visible for a layer that was shown, visible then
/// hidden for one that was hidden. For an unknown layer they report
/// nothing.
pub proof fn lemma_toggle_twice_events(state: StoreState, id: LayerId)
    requires
        state.wf(),
    ensures
        toggled_all(
            state,
            seq![ToggleLayerVisibilityEvent(id), ToggleLayerVisibilityEvent(id)],
        ).state == state,
        toggled_all(
            state,
            seq![ToggleLayerVisibilityEvent(id), ToggleLayerVisibilityEvent(id)],
        ).events == match state.get(id) {
            Some(layer) => if layer.visible {
                seq![LayerEvent::BecameHidden(id), LayerEvent::BecameVisible(id)]
            } else {
                seq![LayerEvent::BecameVisible(id), LayerEvent::BecameHidden(id)]
            },
            None => Seq::<LayerEvent>::empty(),
        },
{
    let both = seq![ToggleLayerVisibilityEvent(id), ToggleLayerVisibilityEvent(id)];
    let one = both.drop_last();
    assert(one =~= seq![ToggleLayerVisibilityEvent(id)]);
    assert(one.drop_last() =~= Seq::<ToggleLayerVisibilityEvent>::empty());
    assert(one.last() == ToggleLayerVisibilityEvent(id));
    assert(both.last() == ToggleLayerVisibilityEvent(id));
    let none = toggled_all(state, one.drop_last());
    assert(none.state == state && none.events =~= Seq::<LayerEvent>::empty());
    let first = toggled_all(state, one);
    assert(first.state == state.toggled(id));
    assert(first.events =~= toggle_events(state, id));
    lemma_toggle_twice(state, id);
    lemma_index_of_found(state.layers, id);
    match index_of(state.layers, id) {
        None => {
            assert(toggled_all(state, both).events =~= Seq::<LayerEvent>::empty());
        },
        Some(i) => {
            let once = state.toggled(id);
            assert(once.layers[i].id == id);
            assert forall|j: int| 0 <= j < i implies (#[trigger] once.layers[j]).id != id by {
                assert(once.layers[j] == state.layers[j]);
            }
            lemma_index_of(once.layers, id, i);
            assert(toggled_all(state, both).events =~= toggle_events(state, id) + toggle_events(
                once,
                id,
            ));
            if state.layers[i].visible {
                assert(toggled_all(state, both).events =~= seq![
                    LayerEvent::BecameHidden(id),
                    LayerEvent::BecameVisible(id),
                ]);
            } else {
                assert(toggled_all(state, both).events =~= seq![
                    LayerEvent::BecameVisible(id),
                    LayerEvent::BecameHidden(id),
                ]);
            }
        },
    }
}

} // verus!
