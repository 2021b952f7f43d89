//! The layer store: an ordered stack of layers with one optional selection.

use vstd::prelude::*;
use crate::color::{Color, next_colorous_color};
use crate::geometry::{Point, Rect, copy_of_rect, union_of_rects};
use crate::layer::{Layer, LayerId, UnassignedLayer};
use crate::state::{MoveDirection, StoreState, first_at, has_id, hits, index_of, layer_of,
    lemma_index_of, swapped};
use crate::invariants::{lemma_added_wf, lemma_clicked_wf, lemma_moved_wf, lemma_removed_wf,
    lemma_with_color_wf, lemma_with_visibility_wf};

verus! {

/// The layers of a map, from the bottom of the stack to the top.
#[derive(Debug)]
pub struct Layers {
    data: Vec<Layer>,
    selected_layer_id: Option<LayerId>,
    next_id: u64,
    projected_bounding_rect: Option<Rect>,
}

impl View for Layers {
    type V = StoreState;

    closed spec fn view(&self) -> StoreState {
        StoreState {
            layers: self.data@,
            selected: self.selected_layer_id,
            issued: self.next_id as nat,
            bounds: self.projected_bounding_rect,
        }
    }
}

impl Default for Layers {
    fn default() -> (layers: Layers)
        ensures
            layers@ == StoreState::empty(),
            layers.wf(),
    {
        Layers::new()
    }
}

impl Layers {
    /// The store's invariant holds.
    pub open spec fn wf(&self) -> bool {
        self@.wf()
    }

    /// The store can still create a layer: it has identifiers left.
    pub open spec fn has_free_id(&self) -> bool {
        self@.issued < u64::MAX
    }

    /// A store without layers and without a selection.
    pub fn new() -> (layers: Layers)
        ensures
            layers@ == StoreState::empty(),
            layers.wf(),
    {
        Layers {
            data: Vec::new(),
            selected_layer_id: None,
            next_id: 0,
            projected_bounding_rect: None,
        }
    }

    /// The layers from the bottom of the stack to the top.
    pub fn iter_bottom_to_top(&self) -> (layers: Vec<&Layer>)
        ensures
            layers@.len() == self@.layers.len(),
            forall|i: int| 0 <= i < layers@.len() ==> *layers@[i] == self@.layers[i],
    {
        let mut found: Vec<&Layer> = Vec::new();
        let mut i: usize = 0;
        while i < self.data.len()
            invariant
                i <= self.data.len(),
                found@.len() == i,
                forall|k: int| 0 <= k < i ==> *found@[k] == self.data@[k],
            decreases self.data.len() - i,
        {
            found.push(&self.data[i]);
            i += 1;
        }
        found
    }

    /// The layers from the top of the stack to the bottom.
    pub fn iter_top_to_bottom(&self) -> (layers: Vec<&Layer>)
        ensures
            layers@.len() == self@.layers.len(),
            forall|i: int| 0 <= i < layers@.len() ==> *layers@[i] == self@.layers.reverse()[i],
    {
        let mut found: Vec<&Layer> = Vec::new();
        let mut i: usize = self.data.len();
        while i > 0
            invariant
                i <= self.data.len(),
                found@.len() == self.data.len() - i,
                forall|k: int| 0 <= k < found@.len() ==> *found@[k] == self.data@[self.data.len() - 1 - k],
            decreases i,
        {
            i -= 1;
            found.push(&self.data[i]);
        }
        found
    }

    /// The number of layers.
    pub fn count(&self) -> (count: usize)
        ensures
            count == self@.layers.len(),
    {
        self.data.len()
    }

    /// Whether the store can still create a layer.
    pub fn can_add(&self) -> (free: bool)
        ensures
            free == self.has_free_id(),
    {
        self.next_id < u64::MAX
    }

    /// The identifier of the selected layer.
    pub fn selected_layer_id(&self) -> (selected: Option<LayerId>)
        ensures
            selected == self@.selected,
    {
        self.selected_layer_id
    }

    /// The union of the projected bounding rectangles of all layers that the
    /// store has created, or nothing if it has created none.
    pub fn projected_bounding_rect(&self) -> (bounds: Option<&Rect>)
        ensures
            (bounds is Some) == (self@.bounds is Some),
            bounds is Some ==> *bounds->Some_0 == self@.bounds->Some_0,
    {
        self.projected_bounding_rect.as_ref()
    }

    /// The layers that contain the point, given in projected coordinates,
    /// the topmost first.
    pub fn containing_coord(&self, coord: &Point) -> (layers: Vec<&Layer>)
        ensures
            layers@.len() == hits(self@.layers, *coord).len(),
            forall|i: int| 0 <= i < layers@.len() ==> *layers@[i] == hits(self@.layers, *coord)[i],
    {
        let mut found: Vec<&Layer> = Vec::new();
        let mut i: usize = self.data.len();
        assert(self.data@.take(i as int) =~= self.data@);
        while i > 0
            invariant
                i <= self.data.len(),
                found@.len() + hits(self.data@.take(i as int), *coord).len() == hits(
                    self.data@,
                    *coord,
                ).len(),
                forall|k: int|
                    0 <= k < found@.len() ==> *found@[k] == hits(self.data@, *coord)[k],
                forall|k: int|
                    0 <= k < hits(self.data@.take(i as int), *coord).len() ==> hits(
                        self.data@.take(i as int),
                        *coord,
                    )[k] == hits(self.data@, *coord)[found@.len() + k],
            decreases i,
        {
            let ghost upper = self.data@.take(i as int);
            i -= 1;
            assert(upper.drop_last() =~= self.data@.take(i as int));
            assert(upper.last() == self.data@[i as int]);
            let layer = &self.data[i];
            if layer.contains(coord) {
                assert(hits(upper, *coord)[0] == upper.last());
                assert forall|k: int|
                    0 <= k < hits(self.data@.take(i as int), *coord).len() implies hits(
                    self.data@.take(i as int),
                    *coord,
                )[k] == hits(self.data@, *coord)[found@.len() + 1 + k] by {
                    assert(hits(upper, *coord)[k + 1] == hits(upper.drop_last(), *coord)[k]);
                }
                found.push(layer);
            }
        }
        found
    }

    /// Selects the topmost layer that contains the point, or nothing where
    /// no layer does, and says whether that changed the selection.
    pub fn set_selected_layer_from_mouse_press(&mut self, coord: &Point) -> (changed: bool)
        requires
            old(self).wf(),
        ensures
            final(self).wf(),
            final(self)@ == old(self)@.clicked(*coord),
            changed == (old(self)@.selected != final(self)@.selected),
    {
        let selected = {
            let found = self.containing_coord(coord);
            if found.len() > 0 {
                Some(found[0].id)
            } else {
                None
            }
        };
        let changed = match (self.selected_layer_id, selected) {
            (Some(before), Some(after)) => before != after,
            (None, None) => false,
            _ => true,
        };
        proof {
            lemma_clicked_wf(self@, *coord);
        }
        self.selected_layer_id = selected;
        changed
    }

    /// The position of the layer with the identifier.
    fn get_index(&self, layer_id: LayerId) -> (index: Option<usize>)
        ensures
            match index {
                Some(i) => first_at(self@.layers, layer_id, i as int),
                None => !has_id(self@.layers, layer_id),
            },
            index_of(self@.layers, layer_id) == match index {
                Some(i) => Some(i as int),
                None => None,
            },
    {
        let mut i: usize = 0;
        while i < self.data.len()
            invariant
                i <= self.data.len(),
                forall|j: int| 0 <= j < i ==> (#[trigger] self.data@[j]).id != layer_id,
            decreases self.data.len() - i,
        {
            if self.data[i].id == layer_id {
                proof {
                    lemma_index_of(self.data@, layer_id, i as int);
                }
                return Some(i);
            }
            i += 1;
        }
        None
    }

    /// The layer with the identifier, if the store holds one.
    pub fn get(&self, layer_id: LayerId) -> (layer: Option<&Layer>)
        ensures
            (layer is Some) == (self@.get(layer_id) is Some),
            layer is Some ==> *layer->Some_0 == self@.get(layer_id)->Some_0,
    {
        match self.get_index(layer_id) {
            Some(index) => Some(&self.data[index]),
            None => None,
        }
    }

    /// The layer with the identifier and its position in the stack, counted
    /// from the bottom.
    pub fn get_with_z_index(&self, layer_id: LayerId) -> (found: Option<(&Layer, usize)>)
        ensures
            (found is Some) == (index_of(self@.layers, layer_id) is Some),
            found is Some ==> {
                &&& found->Some_0.1 == index_of(self@.layers, layer_id)->Some_0
                &&& *found->Some_0.0 == self@.layers[found->Some_0.1 as int]
            },
    {
        match self.get_index(layer_id) {
            Some(index) => Some((&self.data[index], index)),
            None => None,
        }
    }

    /// The layer with the identifier, for changing it in place. What the
    /// caller leaves behind takes the layer's place in the stack; nothing
    /// else changes. A caller that changes more than the colour or the
    /// visibility has to show that the store's invariant still holds.
    pub fn get_mut(&mut self, layer_id: LayerId) -> (layer: Option<&mut Layer>)
        ensures
            (layer is Some) == (index_of(old(self)@.layers, layer_id) is Some),
            layer is Some ==> {
                &&& *layer->Some_0 == old(self)@.layers[index_of(old(self)@.layers, layer_id)->Some_0]
                &&& final(self)@ == (StoreState {
                    layers: old(self)@.layers.update(
                        index_of(old(self)@.layers, layer_id)->Some_0,
                        *final(layer->Some_0),
                    ),
                    ..old(self)@
                })
            },
            layer is None ==> final(self)@ == old(self)@,
    {
        match self.get_index(layer_id) {
            Some(index) => Some(&mut self.data[index]),
            None => None,
        }
    }

    /// Removes the layer with the identifier, and the selection with it if
    /// that layer was selected. Does nothing if there is no such layer.
    pub fn remove(&mut self, layer_id: LayerId)
        requires
            old(self).wf(),
        ensures
            final(self).wf(),
            final(self)@ == old(self)@.removed(layer_id),
    {
        proof {
            lemma_removed_wf(self@, layer_id);
        }
        if let Some(index) = self.get_index(layer_id) {
            let _ = self.data.remove(index);
            let was_selected = match self.selected_layer_id {
                Some(selected) => selected == layer_id,
                None => false,
            };
            if was_selected {
                self.selected_layer_id = None;
            }
        }
    }

    /// The selected layer.
    pub fn selected_layer(&self) -> (layer: Option<&Layer>)
        ensures
            self@.selected is None ==> layer is None,
            self@.selected is Some ==> {
                &&& (layer is Some) == (self@.get(self@.selected->Some_0) is Some)
                &&& layer is Some ==> *layer->Some_0 == self@.get(self@.selected->Some_0)->Some_0
            },
    {
        match self.selected_layer_id {
            Some(layer_id) => self.get(layer_id),
            None => None,
        }
    }

    /// Hands out the next identifier.
    fn next_layer_id(&mut self) -> (layer_id: LayerId)
        requires
            old(self).next_id < u64::MAX,
        ensures
            layer_id == LayerId(old(self).next_id),
            final(self).next_id == old(self).next_id + 1,
            final(self).data == old(self).data,
            final(self).selected_layer_id == old(self).selected_layer_id,
            final(self).projected_bounding_rect == old(self).projected_bounding_rect,
    {
        let layer_id = LayerId(self.next_id);
        self.next_id = self.next_id + 1;
        layer_id
    }

    /// Puts a new layer on top of the stack and returns its identifier,
    /// which no layer of this store had before. The layer is visible and
    /// gets the next colour of the palette.
    pub fn add(&mut self, unassigned_layer: UnassignedLayer) -> (layer_id: LayerId)
        requires
            old(self).wf(),
            old(self).has_free_id(),
            unassigned_layer.wf(),
        ensures
            final(self).wf(),
            final(self)@ == old(self)@.added(unassigned_layer),
            layer_id == LayerId(old(self)@.issued as u64),
            !has_id(old(self)@.layers, layer_id),
    {
        proof {
            lemma_added_wf(self@, unassigned_layer);
        }
        let color = next_colorous_color(self.next_id);
        let layer_id = self.next_layer_id();
        let rect = copy_of_rect(&unassigned_layer.projected_feature.bounding_rect);
        let bounds = match &self.projected_bounding_rect {
            None => rect,
            Some(current) => match union_of_rects(current, &rect) {
                Some(merged) => merged,
                None => copy_of_rect(current),
            },
        };
        self.projected_bounding_rect = Some(bounds);
        let layer = Layer {
            unprojected_feature: unassigned_layer.unprojected_feature,
            projected_feature: unassigned_layer.projected_feature,
            color,
            id: layer_id,
            name: unassigned_layer.name,
            metadata: unassigned_layer.metadata,
            visible: true,
            crs: unassigned_layer.crs,
        };
        assert(layer == layer_of(unassigned_layer, old(self)@.issued));
        self.data.push(layer);
        layer_id
    }

    /// Moves the layer one step up or down the stack by changing places
    /// with its neighbour, and returns the neighbour's identifier. Does
    /// nothing and returns nothing for an unknown layer, for the topmost
    /// layer moving up and for the bottommost layer moving down.
    pub fn move_layer(&mut self, layer_id: LayerId, direction: MoveDirection) -> (partner: Option<
        LayerId,
    >)
        requires
            old(self).wf(),
        ensures
            final(self).wf(),
            final(self)@ == old(self)@.moved(layer_id, direction),
            partner == old(self)@.move_partner(layer_id, direction),
    {
        proof {
            lemma_moved_wf(self@, layer_id, direction);
        }
        let index = match self.get_index(layer_id) {
            Some(index) => index,
            None => {
                return None;
            },
        };
        assert(first_at(self@.layers, layer_id, index as int));
        let target: usize = match direction {
            MoveDirection::Up => {
                if index >= self.data.len() - 1 {
                    return None;
                }
                index + 1
            },
            MoveDirection::Down => {
                if index == 0 {
                    return None;
                }
                index - 1
            },
        };
        let partner = self.data[target].id;
        let layer = self.data.remove(index);
        self.data.insert(target, layer);
        assert(self.data@ =~= swapped(old(self).data@, index as int, target as int));
        Some(partner)
    }

    /// Shows or hides the layer, and says whether the store holds it.
    pub fn set_visibility(&mut self, layer_id: LayerId, visible: bool) -> (found: bool)
        requires
            old(self).wf(),
        ensures
            final(self).wf(),
            final(self)@ == old(self)@.with_visibility(layer_id, visible),
            found == has_id(old(self)@.layers, layer_id),
    {
        proof {
            lemma_with_visibility_wf(self@, layer_id, visible);
        }
        match self.get_mut(layer_id) {
            Some(layer) => {
                layer.visible = visible;
                true
            },
            None => false,
        }
    }

    /// Shows the layer if it was hidden and hides it if it was shown, and
    /// returns its new visibility; nothing for an unknown layer.
    pub fn toggle_visibility(&mut self, layer_id: LayerId) -> (visible: Option<bool>)
        requires
            old(self).wf(),
        ensures
            final(self).wf(),
            final(self)@ == old(self)@.toggled(layer_id),
            visible == match old(self)@.get(layer_id) {
                Some(layer) => Some(!layer.visible),
                None => None,
            },
    {
        proof {
            if self@.get(layer_id) is Some {
                lemma_with_visibility_wf(self@, layer_id, !self@.get(layer_id)->Some_0.visible);
            }
        }
        match self.get_mut(layer_id) {
            Some(layer) => {
                let visible = !layer.visible;
                layer.visible = visible;
                Some(visible)
            },
            None => None,
        }
    }

    /// Gives the layer a colour, and says whether the store holds it.
    pub fn set_color(&mut self, layer_id: LayerId, color: Color) -> (found: bool)
        requires
            old(self).wf(),
        ensures
            final(self).wf(),
            final(self)@ == old(self)@.with_color(layer_id, color),
            found == has_id(old(self)@.layers, layer_id),
    {
        proof {
            lemma_with_color_wf(self@, layer_id, color);
        }
        match self.get_mut(layer_id) {
            Some(layer) => {
                layer.color = color;
                true
            },
            None => false,
        }
    }
}

} // verus!
