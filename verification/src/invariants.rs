//! Every operation of the store keeps the store's invariant.

use vstd::prelude::*;
use crate::color::Color;
use crate::geometry::Point;
use crate::layer::{Layer, LayerId, UnassignedLayer};
use crate::state::{MoveDirection, StoreState, has_id, hits, index_of, lemma_index_of_found,
    swapped, top_hit};

verus! {

/// Adding a well-formed record to a store with identifiers left keeps the
/// invariant, and the new layer's identifier is one that no layer had.
pub proof fn lemma_added_wf(state: StoreState, candidate: UnassignedLayer)
    requires
        state.wf(),
        state.issued < u64::MAX,
        candidate.wf(),
    ensures
        state.added(candidate).wf(),
        !has_id(state.layers, LayerId(state.issued as u64)),
{
    let after = state.added(candidate);
    assert forall|i: int| 0 <= i < state.layers.len() implies (#[trigger] state.layers[i]).id
        != LayerId(state.issued as u64) by {
        assert(state.layers[i].id.0 < state.issued);
    }
    assert forall|i: int, j: int| 0 <= i < j < after.layers.len() implies (
    #[trigger] after.layers[i]).id != (#[trigger] after.layers[j]).id by {
        assert(after.layers[i] == state.layers[i]);
        if j < state.layers.len() {
            assert(after.layers[j] == state.layers[j]);
        } else {
            assert(state.layers[i].id.0 < state.issued);
        }
    }
    assert forall|i: int| 0 <= i < after.layers.len() implies (#[trigger] after.layers[i]).id.0
        < after.issued && after.layers[i].wf() by {
        if i < state.layers.len() {
            assert(after.layers[i] == state.layers[i]);
        }
    }
    if state.selected is Some {
        let k = choose|k: int|
            0 <= k < state.layers.len() && (#[trigger] state.layers[k]).id
                == state.selected->Some_0;
        assert(after.layers[k] == state.layers[k]);
    }
}

/// Removing a layer keeps the invariant, and the store no longer holds the
/// identifier.
pub proof fn lemma_removed_wf(state: StoreState, id: LayerId)
    requires
        state.wf(),
    ensures
        state.removed(id).wf(),
        !has_id(state.removed(id).layers, id),
{
    lemma_index_of_found(state.layers, id);
    let after = state.removed(id);
    match index_of(state.layers, id) {
        None => {},
        Some(at) => {
            assert forall|i: int| 0 <= i < after.layers.len() implies (
            #[trigger] after.layers[i]).id.0 < after.issued && after.layers[i].wf()
                && after.layers[i].id != id by {
                if i < at {
                    assert(after.layers[i] == state.layers[i]);
                } else {
                    assert(after.layers[i] == state.layers[i + 1]);
                }
            }
            assert forall|i: int, j: int| 0 <= i < j < after.layers.len() implies (
            #[trigger] after.layers[i]).id != (#[trigger] after.layers[j]).id by {
                let from_i = if i < at { i } else { i + 1 };
                let from_j = if j < at { j } else { j + 1 };
                assert(after.layers[i] == state.layers[from_i]);
                assert(after.layers[j] == state.layers[from_j]);
            }
            if after.selected is Some {
                let k = choose|k: int|
                    0 <= k < state.layers.len() && (#[trigger] state.layers[k]).id
                        == state.selected->Some_0;
                let to = if k < at { k } else { k - 1 };
                assert(after.layers[to] == state.layers[k]);
            }
        },
    }
}

/// Exchanging two layers keeps the invariant.
proof fn lemma_swapped_wf(state: StoreState, i: int, j: int)
    requires
        state.wf(),
        0 <= i < state.layers.len(),
        0 <= j < state.layers.len(),
    ensures
        (StoreState { layers: swapped(state.layers, i, j), ..state }).wf(),
{
    let after = StoreState { layers: swapped(state.layers, i, j), ..state };
    let origin = |k: int| if k == i { j } else if k == j { i } else { k };
    assert forall|k: int| 0 <= k < after.layers.len() implies (#[trigger] after.layers[k])
        == state.layers[origin(k)] by {}
    assert forall|a: int, b: int| 0 <= a < b < after.layers.len() implies (
    #[trigger] after.layers[a]).id != (#[trigger] after.layers[b]).id by {
        assert(after.layers[a] == state.layers[origin(a)]);
        assert(after.layers[b] == state.layers[origin(b)]);
        if origin(a) < origin(b) {
            assert(state.layers[origin(a)].id != state.layers[origin(b)].id);
        } else {
            assert(state.layers[origin(b)].id != state.layers[origin(a)].id);
        }
    }
    assert forall|k: int| 0 <= k < after.layers.len() implies (#[trigger] after.layers[k]).id.0
        < after.issued && after.layers[k].wf() by {
        assert(after.layers[k] == state.layers[origin(k)]);
    }
    if state.selected is Some {
        let k = choose|k: int|
            0 <= k < state.layers.len() && (#[trigger] state.layers[k]).id
                == state.selected->Some_0;
        assert(after.layers[origin(k)] == state.layers[k]);
    }
}

/// Moving a layer keeps the invariant.
pub proof fn lemma_moved_wf(state: StoreState, id: LayerId, direction: MoveDirection)
    requires
        state.wf(),
    ensures
        state.moved(id, direction).wf(),
{
    lemma_index_of_found(state.layers, id);
    match index_of(state.layers, id) {
        None => {},
        Some(i) => match state.neighbour(i, direction) {
            None => {},
            Some(j) => {
                lemma_swapped_wf(state, i, j);
            },
        },
    }
}

/// Replacing a layer by one with the same identifier and geometries keeps
/// the invariant.
proof fn lemma_restyled_wf(state: StoreState, at: int, layer: Layer)
    requires
        state.wf(),
        0 <= at < state.layers.len(),
        layer.id == state.layers[at].id,
        layer.wf(),
    ensures
        (StoreState { layers: state.layers.update(at, layer), ..state }).wf(),
{
    let after = StoreState { layers: state.layers.update(at, layer), ..state };
    assert forall|k: int| 0 <= k < after.layers.len() implies (#[trigger] after.layers[k]).id
        == state.layers[k].id && after.layers[k].wf() by {}
    assert forall|a: int, b: int| 0 <= a < b < after.layers.len() implies (
    #[trigger] after.layers[a]).id != (#[trigger] after.layers[b]).id by {
        assert(after.layers[a].id == state.layers[a].id);
        assert(after.layers[b].id == state.layers[b].id);
    }
    assert forall|k: int| 0 <= k < after.layers.len() implies (#[trigger] after.layers[k]).id.0
        < after.issued by {
        assert(after.layers[k].id == state.layers[k].id);
    }
    if state.selected is Some {
        let k = choose|k: int|
            0 <= k < state.layers.len() && (#[trigger] state.layers[k]).id
                == state.selected->Some_0;
        assert(after.layers[k].id == state.layers[k].id);
    }
}

/// Showing or hiding a layer keeps the invariant.
pub proof fn lemma_with_visibility_wf(state: StoreState, id: LayerId, visible: bool)
    requires
        state.wf(),
    ensures
        state.with_visibility(id, visible).wf(),
{
    lemma_index_of_found(state.layers, id);
    match index_of(state.layers, id) {
        None => {},
        Some(i) => {
            lemma_restyled_wf(state, i, Layer { visible, ..state.layers[i] });
        },
    }
}

/// Recolouring a layer keeps the invariant.
pub proof fn lemma_with_color_wf(state: StoreState, id: LayerId, color: Color)
    requires
        state.wf(),
    ensures
        state.with_color(id, color).wf(),
{
    lemma_index_of_found(state.layers, id);
    match index_of(state.layers, id) {
        None => {},
        Some(i) => {
            lemma_restyled_wf(state, i, Layer { color, ..state.layers[i] });
        },
    }
}

/// Every layer that a hit test reports is a layer of the stack that
/// contains the point.
pub proof fn lemma_hits_are_layers(layers: Seq<Layer>, point: Point, k: int) -> (index: int)
    requires
        0 <= k < hits(layers, point).len(),
    ensures
        0 <= index < layers.len(),
        layers[index] == hits(layers, point)[k],
        layers[index].spec_contains(point),
    decreases layers.len(),
{
    if layers.last().spec_contains(point) && k == 0 {
        layers.len() - 1
    } else {
        let shift: int = if layers.last().spec_contains(point) { 1 } else { 0 };
        let index = lemma_hits_are_layers(layers.drop_last(), point, k - shift);
        assert(layers.drop_last()[index] == layers[index]);
        index
    }
}

/// A click keeps the invariant: what it selects is a layer of the store.
pub proof fn lemma_clicked_wf(state: StoreState, point: Point)
    requires
        state.wf(),
    ensures
        state.clicked(point).wf(),
{
    if top_hit(state.layers, point) is Some {
        let index = lemma_hits_are_layers(state.layers, point, 0);
        assert(state.layers[index].id == top_hit(state.layers, point)->Some_0);
    }
}

} // verus!
