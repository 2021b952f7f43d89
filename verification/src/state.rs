//! The mathematical content of a layer store, and what each operation of the
//! store makes of it.

use vstd::prelude::*;
use crate::color::{Color, cyclic_color};
use crate::geometry::{Point, Rect, rect_union};
use crate::layer::{Layer, LayerId, UnassignedLayer};

verus! {

/// The direction in which a layer moves through the stack.
#[derive(Clone, Copy, Debug, PartialEq, Eq, Structural)]
pub enum MoveDirection {
    /// One step towards the top.
    Up,
    /// One step towards the bottom.
    Down,
}

/// Some layer of the sequence has the identifier.
pub open spec fn has_id(layers: Seq<Layer>, id: LayerId) -> bool {
    exists|i: int| 0 <= i < layers.len() && (#[trigger] layers[i]).id == id
}

/// The layer at `index` has the identifier and no layer below it has.
pub open spec fn first_at(layers: Seq<Layer>, id: LayerId, index: int) -> bool {
    &&& 0 <= index < layers.len()
    &&& layers[index].id == id
    &&& forall|j: int| 0 <= j < index ==> (#[trigger] layers[j]).id != id
}

/// The position of the lowest layer with the identifier.
pub open spec fn index_of(layers: Seq<Layer>, id: LayerId) -> Option<int> {
    if has_id(layers, id) {
        Some(choose|i: int| first_at(layers, id, i))
    } else {
        None
    }
}

/// No two layers of the sequence share an identifier.
pub open spec fn distinct_ids(layers: Seq<Layer>) -> bool {
    forall|i: int, j: int|
        0 <= i < j < layers.len() ==> (#[trigger] layers[i]).id != (#[trigger] layers[j]).id
}

/// The sequence with the layers at the two positions exchanged.
pub open spec fn swapped(layers: Seq<Layer>, i: int, j: int) -> Seq<Layer> {
    layers.update(i, layers[j]).update(j, layers[i])
}

/// The layer that a store makes of a record when it has created
/// `created_before` layers already.
pub open spec fn layer_of(candidate: UnassignedLayer, created_before: nat) -> Layer {
    Layer {
        unprojected_feature: candidate.unprojected_feature,
        projected_feature: candidate.projected_feature,
        color: cyclic_color(created_before),
        id: LayerId(created_before as u64),
        name: candidate.name,
        metadata: candidate.metadata,
        visible: true,
        crs: candidate.crs,
    }
}

/// The layers that contain the point, the topmost first.
pub open spec fn hits(layers: Seq<Layer>, point: Point) -> Seq<Layer>
    decreases layers.len(),
{
    if layers.len() == 0 {
        Seq::empty()
    } else if layers.last().spec_contains(point) {
        seq![layers.last()] + hits(layers.drop_last(), point)
    } else {
        hits(layers.drop_last(), point)
    }
}

/// The identifier of the topmost layer that contains the point.
pub open spec fn top_hit(layers: Seq<Layer>, point: Point) -> Option<LayerId> {
    if hits(layers, point).len() > 0 {
        Some(hits(layers, point)[0].id)
    } else {
        None
    }
}

/// The bounds of a store after a layer with the given projected bounding
/// rectangle was added: the rectangle itself for the first layer, afterwards
/// the union of the bounds so far with it.
pub open spec fn merged_bounds(bounds: Option<Rect>, rect: Rect) -> Option<Rect> {
    match bounds {
        None => Some(rect),
        Some(current) => match rect_union(current, rect) {
            Some(merged) => Some(merged),
            None => Some(current),
        },
    }
}

/// The bounds after layers with the projected bounding rectangles of the
/// records were added in order.
pub open spec fn bounds_of_all(bounds: Option<Rect>, candidates: Seq<UnassignedLayer>) -> Option<Rect>
    decreases candidates.len(),
{
    if candidates.len() == 0 {
        bounds
    } else {
        merged_bounds(
            bounds_of_all(bounds, candidates.drop_last()),
            candidates.last().projected_feature.bounding_rect,
        )
    }
}

/// What a store holds: its layers from the bottom of the stack to the top,
/// the selected layer, how many layers it has created so far, and the
/// union of the projected bounding rectangles of all of those.
pub struct StoreState {
    pub layers: Seq<Layer>,
    pub selected: Option<LayerId>,
    pub issued: nat,
    pub bounds: Option<Rect>,
}

impl StoreState {
    /// The store's invariant: identifiers are pairwise distinct and were all
    /// handed out by this store, the selection names a present layer, and
    /// every layer carries the bounding rectangles of its geometries.
    pub open spec fn wf(self) -> bool {
        &&& distinct_ids(self.layers)
        &&& forall|i: int| 0 <= i < self.layers.len() ==> (#[trigger] self.layers[i]).id.0 < self.issued
        &&& forall|i: int| 0 <= i < self.layers.len() ==> (#[trigger] self.layers[i]).wf()
        &&& self.selected is Some ==> has_id(self.layers, self.selected->Some_0)
        &&& self.issued <= u64::MAX
    }

    /// A store without layers.
    pub open spec fn empty() -> StoreState {
        StoreState { layers: Seq::empty(), selected: None, issued: 0, bounds: None }
    }

    /// The layer with the identifier.
    pub open spec fn get(self, id: LayerId) -> Option<Layer> {
        match index_of(self.layers, id) {
            Some(i) => Some(self.layers[i]),
            None => None,
        }
    }

    /// The store after a record was added on top.
    pub open spec fn added(self, candidate: UnassignedLayer) -> StoreState {
        StoreState {
            layers: self.layers.push(layer_of(candidate, self.issued)),
            selected: self.selected,
            issued: self.issued + 1,
            bounds: merged_bounds(self.bounds, candidate.projected_feature.bounding_rect),
        }
    }

    /// The store after the records were added in order.
    pub open spec fn added_all(self, candidates: Seq<UnassignedLayer>) -> StoreState
        decreases candidates.len(),
    {
        if candidates.len() == 0 {
            self
        } else {
            self.added_all(candidates.drop_last()).added(candidates.last())
        }
    }

    /// The store after the layer with the identifier was removed. A store
    /// without such a layer stays as it is; a removed layer is no longer
    /// selected. The bounds stay as they are: they never shrink.
    pub open spec fn removed(self, id: LayerId) -> StoreState {
        match index_of(self.layers, id) {
            Some(i) => StoreState {
                layers: self.layers.remove(i),
                selected: if self.selected == Some(id) {
                    None
                } else {
                    self.selected
                },
                issued: self.issued,
                bounds: self.bounds,
            },
            None => self,
        }
    }

    /// The position with which the layer at `index` changes places when it
    /// moves, if there is one.
    pub open spec fn neighbour(self, index: int, direction: MoveDirection) -> Option<int> {
        match direction {
            MoveDirection::Up => if index + 1 < self.layers.len() {
                Some(index + 1)
            } else {
                None
            },
            MoveDirection::Down => if index > 0 {
                Some(index - 1)
            } else {
                None
            },
        }
    }

    /// The identifier of the layer with which the given one changes places
    /// when it moves: none for an unknown layer, for the topmost layer
    /// moving up and for the bottommost moving down.
    pub open spec fn move_partner(self, id: LayerId, direction: MoveDirection) -> Option<LayerId> {
        match index_of(self.layers, id) {
            Some(i) => match self.neighbour(i, direction) {
                Some(j) => Some(self.layers[j].id),
                None => None,
            },
            None => None,
        }
    }

    /// The store after the layer moved one step; unchanged where it has no
    /// partner to change places with.
    pub open spec fn moved(self, id: LayerId, direction: MoveDirection) -> StoreState {
        match index_of(self.layers, id) {
            Some(i) => match self.neighbour(i, direction) {
                Some(j) => StoreState { layers: swapped(self.layers, i, j), ..self },
                None => self,
            },
            None => self,
        }
    }

    /// The store after the layer's visibility was set.
    pub open spec fn with_visibility(self, id: LayerId, visible: bool) -> StoreState {
        match index_of(self.layers, id) {
            Some(i) => StoreState {
                layers: self.layers.update(i, Layer { visible, ..self.layers[i] }),
                ..self
            },
            None => self,
        }
    }

    /// The store after the layer's visibility was flipped.
    pub open spec fn toggled(self, id: LayerId) -> StoreState {
        match self.get(id) {
            Some(layer) => self.with_visibility(id, !layer.visible),
            None => self,
        }
    }

    /// The store after the layer's colour was set.
    pub open spec fn with_color(self, id: LayerId, color: Color) -> StoreState {
        match index_of(self.layers, id) {
            Some(i) => StoreState {
                layers: self.layers.update(i, Layer { color, ..self.layers[i] }),
                ..self
            },
            None => self,
        }
    }

    /// The store after a click at the point: the topmost layer that
    /// contains it is selected, or nothing if no layer does.
    pub open spec fn clicked(self, point: Point) -> StoreState {
        StoreState { selected: top_hit(self.layers, point), ..self }
    }
}

/// A position that holds the identifier and has no equal below it is the
/// one that `index_of` gives.
pub proof fn lemma_index_of(layers: Seq<Layer>, id: LayerId, index: int)
    requires
        first_at(layers, id, index),
    ensures
        index_of(layers, id) == Some(index),
{
    assert(has_id(layers, id));
    let chosen = choose|i: int| first_at(layers, id, i);
    assert(first_at(layers, id, chosen));
    if chosen < index {
        assert(layers[chosen].id != id);
    }
    if index < chosen {
        assert(layers[index].id != id);
    }
}

/// Among distinct identifiers every position is the first of its
/// identifier.
pub proof fn lemma_index_of_distinct(layers: Seq<Layer>, index: int)
    requires
        distinct_ids(layers),
        0 <= index < layers.len(),
    ensures
        index_of(layers, layers[index].id) == Some(index),
{
    assert forall|j: int| 0 <= j < index implies (#[trigger] layers[j]).id != layers[index].id by {}
    lemma_index_of(layers, layers[index].id, index);
}

/// Whatever `index_of` gives is a position that holds the identifier.
pub proof fn lemma_index_of_found(layers: Seq<Layer>, id: LayerId)
    ensures
        match index_of(layers, id) {
            Some(i) => first_at(layers, id, i),
            None => !has_id(layers, id),
        },
{
    if has_id(layers, id) {
        let k = lemma_first_exists(layers, id);
        lemma_index_of(layers, id, k);
    }
}

/// A sequence that holds the identifier holds it at a lowest position.
pub proof fn lemma_first_exists(layers: Seq<Layer>, id: LayerId) -> (index: int)
    requires
        has_id(layers, id),
    ensures
        first_at(layers, id, index),
    decreases layers.len(),
{
    let witness = choose|i: int| 0 <= i < layers.len() && (#[trigger] layers[i]).id == id;
    let below = layers.take(witness);
    if has_id(below, id) {
        let k = lemma_first_exists(below, id);
        assert(layers[k] == below[k]);
        assert forall|j: int| 0 <= j < k implies (#[trigger] layers[j]).id != id by {
            assert(below[j].id != id);
        }
        k
    } else {
        assert forall|j: int| 0 <= j < witness implies (#[trigger] layers[j]).id != id by {
            if layers[j].id == id {
                assert(below[j].id == id);
                assert(has_id(below, id));
            }
        }
        witness
    }
}

} // verus!
