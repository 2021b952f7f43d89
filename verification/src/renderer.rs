//! What a renderer has to do when layers change: which meshes to build and
//! which drawn entities to take away. Building and drawing are left to the
//! renderer; this module decides and keeps the books.

use std::collections::HashMap;
use vstd::prelude::*;
use vstd::std_specs::hash::*;
use crate::color::Color;
use crate::layer::LayerId;
use crate::layers::Layers;
use crate::state::StoreState;

verus! {

broadcast use vstd::std_specs::hash::group_hash_axioms;

/// The drawn entities of each layer, in the order in which they were drawn.
#[derive(Debug)]
pub struct EntityStore {
    entities: HashMap<u64, Vec<u64>>,
}

impl View for EntityStore {
    type V = Map<LayerId, Seq<u64>>;

    closed spec fn view(&self) -> Map<LayerId, Seq<u64>> {
        Map::new(
            |id: LayerId| self.entities@.contains_key(id.0),
            |id: LayerId| self.entities@[id.0]@,
        )
    }
}

impl EntityStore {
    /// A store without entities.
    pub fn new() -> (store: EntityStore)
        ensures
            store@ == Map::<LayerId, Seq<u64>>::empty(),
    {
        let store = EntityStore { entities: HashMap::new() };
        assert(store@ =~= Map::<LayerId, Seq<u64>>::empty());
        store
    }

    /// Notes that an entity was drawn for a layer, behind those noted for it
    /// already.
    pub fn spawn_mesh(&mut self, layer_id: LayerId, entity: u64)
        ensures
            final(self)@ == old(self)@.insert(
                layer_id,
                if old(self)@.contains_key(layer_id) {
                    old(self)@[layer_id].push(entity)
                } else {
                    seq![entity]
                },
            ),
    {
        let mut drawn = match self.entities.remove(&layer_id.0) {
            Some(drawn) => drawn,
            None => Vec::new(),
        };
        drawn.push(entity);
        self.entities.insert(layer_id.0, drawn);
        assert(self@ =~= old(self)@.insert(
            layer_id,
            if old(self)@.contains_key(layer_id) {
                old(self)@[layer_id].push(entity)
            } else {
                seq![entity]
            },
        ));
    }

    /// Takes out the entities that were drawn for a layer.
    pub fn take(&mut self, layer_id: LayerId) -> (drawn: Option<Vec<u64>>)
        ensures
            match drawn {
                Some(entities) => {
                    &&& old(self)@.contains_key(layer_id)
                    &&& entities@ == old(self)@[layer_id]
                    &&& final(self)@ == old(self)@.remove(layer_id)
                },
                None => !old(self)@.contains_key(layer_id) && final(self)@ == old(self)@,
            },
    {
        let drawn = self.entities.remove(&layer_id.0);
        assert(self@ =~= old(self)@.remove(layer_id));
        drawn
    }
}

/// Asks to draw a layer or to take its drawing away.
#[derive(Clone, Copy, Debug)]
pub enum ToggleMaterialEvent {
    Show(LayerId),
    Hide(LayerId),
}

/// One thing for the renderer to do.
#[derive(Clone, Copy, Debug, PartialEq, Eq)]
pub enum RenderAction {
    /// Build the meshes of the layer's projected geometry, draw them in the
    /// colour, and note each drawn entity in the entity store.
    SpawnMeshes { layer_id: LayerId, color: Color },
    /// Take the entity away.
    Despawn(u64),
    /// Point the camera at the layer.
    CenterCamera(LayerId),
}

/// The entity store together with the actions that led to it.
pub struct RenderOutcome {
    pub entities: Map<LayerId, Seq<u64>>,
    pub actions: Seq<RenderAction>,
}

/// One action for each entity, in order, that takes it away.
pub open spec fn despawn_each(entities: Seq<u64>) -> Seq<RenderAction> {
    Seq::new(entities.len(), |i: int| RenderAction::Despawn(entities[i]))
}

/// What follows from a new layer: a visible layer is drawn and the camera
/// is pointed at it; a hidden or unknown one is passed over.
pub open spec fn loaded_actions(state: StoreState, id: LayerId) -> Seq<RenderAction> {
    match state.get(id) {
        Some(layer) => if layer.visible {
            seq![
                RenderAction::SpawnMeshes { layer_id: id, color: layer.color },
                RenderAction::CenterCamera(id),
            ]
        } else {
            Seq::empty()
        },
        None => Seq::empty(),
    }
}

/// What follows from new layers, in order.
pub open spec fn loaded_all_actions(state: StoreState, ids: Seq<LayerId>) -> Seq<RenderAction>
    decreases ids.len(),
{
    if ids.len() == 0 {
        Seq::empty()
    } else {
        loaded_all_actions(state, ids.drop_last()) + loaded_actions(state, ids.last())
    }
}

/// What follows from one request to show or hide: a known layer that is to
/// be shown is drawn; the entities of a known layer that is to be hidden
/// are taken away and forgotten.
pub open spec fn material_step(
    state: StoreState,
    entities: Map<LayerId, Seq<u64>>,
    event: ToggleMaterialEvent,
) -> RenderOutcome {
    match event {
        ToggleMaterialEvent::Show(id) => match state.get(id) {
            Some(layer) => RenderOutcome {
                entities,
                actions: seq![RenderAction::SpawnMeshes { layer_id: id, color: layer.color }],
            },
            None => RenderOutcome { entities, actions: Seq::empty() },
        },
        ToggleMaterialEvent::Hide(id) => if state.get(id) is Some && entities.contains_key(id) {
            RenderOutcome { entities: entities.remove(id), actions: despawn_each(entities[id]) }
        } else {
            RenderOutcome { entities, actions: Seq::empty() }
        },
    }
}

/// What follows from requests to show or hide, in order.
pub open spec fn material_all(
    state: StoreState,
    entities: Map<LayerId, Seq<u64>>,
    events: Seq<ToggleMaterialEvent>,
) -> RenderOutcome
    decreases events.len(),
{
    if events.len() == 0 {
        RenderOutcome { entities, actions: Seq::empty() }
    } else {
        let before = material_all(state, entities, events.drop_last());
        let last = material_step(state, before.entities, events.last());
        RenderOutcome { entities: last.entities, actions: before.actions + last.actions }
    }
}

/// What follows from a new colour: the entities of a known layer that has
/// any are taken away and forgotten, and the layer is drawn again.
pub open spec fn recolor_step(
    state: StoreState,
    entities: Map<LayerId, Seq<u64>>,
    id: LayerId,
) -> RenderOutcome {
    match state.get(id) {
        Some(layer) => if entities.contains_key(id) {
            RenderOutcome {
                entities: entities.remove(id),
                actions: despawn_each(entities[id]).push(
                    RenderAction::SpawnMeshes { layer_id: id, color: layer.color },
                ),
            }
        } else {
            RenderOutcome { entities, actions: Seq::empty() }
        },
        None => RenderOutcome { entities, actions: Seq::empty() },
    }
}

/// What follows from new colours, in order.
pub open spec fn recolor_all(
    state: StoreState,
    entities: Map<LayerId, Seq<u64>>,
    ids: Seq<LayerId>,
) -> RenderOutcome
    decreases ids.len(),
{
    if ids.len() == 0 {
        RenderOutcome { entities, actions: Seq::empty() }
    } else {
        let before = recolor_all(state, entities, ids.drop_last());
        let last = recolor_step(state, before.entities, ids.last());
        RenderOutcome { entities: last.entities, actions: before.actions + last.actions }
    }
}

/// Appends one action for each entity that takes it away.
fn despawn(entities: &Vec<u64>, actions: &mut Vec<RenderAction>)
    ensures
        final(actions)@ == old(actions)@ + despawn_each(entities@),
{
    let mut i: usize = 0;
    assert(actions@ =~= old(actions)@ + despawn_each(entities@.take(0)));
    while i < entities.len()
        invariant
            i <= entities.len(),
            actions@ == old(actions)@ + despawn_each(entities@.take(i as int)),
        decreases entities.len() - i,
    {
        actions.push(RenderAction::Despawn(entities[i]));
        assert(despawn_each(entities@.take(i + 1)) =~= despawn_each(entities@.take(i as int)).push(
            RenderAction::Despawn(entities@[i as int]),
        ));
        assert(actions@ =~= old(actions)@ + despawn_each(entities@.take(i + 1)));
        i += 1;
    }
    assert(entities@.take(i as int) =~= entities@);
}

/// Says what to do for layers that were created: each visible one is drawn
/// in its colour and the camera is pointed at it.
pub fn layer_loaded(layers: &Layers, events: &Vec<LayerId>) -> (actions: Vec<RenderAction>)
    ensures
        actions@ == loaded_all_actions(layers@, events@),
{
    let mut actions: Vec<RenderAction> = Vec::new();
    let mut i: usize = 0;
    assert(events@.take(0) =~= Seq::empty());
    while i < events.len()
        invariant
            i <= events.len(),
            actions@ == loaded_all_actions(layers@, events@.take(i as int)),
        decreases events.len() - i,
    {
        let ghost before = actions@;
        assert(events@.take(i + 1).drop_last() =~= events@.take(i as int));
        let id = events[i];
        match layers.get(id) {
            Some(layer) => {
                if layer.visible {
                    actions.push(RenderAction::SpawnMeshes { layer_id: id, color: layer.color });
                    actions.push(RenderAction::CenterCamera(id));
                }
            },
            None => {},
        }
        assert(actions@ =~= before + loaded_actions(layers@, id));
        i += 1;
    }
    assert(events@.take(i as int) =~= events@);
    actions
}

/// Says what to do for layers that are to be shown or hidden, and then for
/// layers that have a new colour. A layer that is to be shown is drawn. The
/// drawn entities of a layer that is to be hidden are taken away. A layer
/// with a new colour that has drawn entities loses them and is drawn again.
/// Unknown layers are passed over.
pub fn toggle_material_event(
    layers: &Layers,
    events: &Vec<ToggleMaterialEvent>,
    color_events: &Vec<LayerId>,
    entity_store: &mut EntityStore,
) -> (actions: Vec<RenderAction>)
    ensures
        ({
            let toggled = material_all(layers@, old(entity_store)@, events@);
            let recolored = recolor_all(layers@, toggled.entities, color_events@);
            &&& final(entity_store)@ == recolored.entities
            &&& actions@ == toggled.actions + recolored.actions
        }),
{
    let mut actions: Vec<RenderAction> = Vec::new();
    let mut i: usize = 0;
    assert(events@.take(0) =~= Seq::empty());
    while i < events.len()
        invariant
            i <= events.len(),
            entity_store@ == material_all(layers@, old(entity_store)@, events@.take(i as int)).entities,
            actions@ == material_all(layers@, old(entity_store)@, events@.take(i as int)).actions,
        decreases events.len() - i,
    {
        let ghost before = actions@;
        let ghost step = material_step(layers@, entity_store@, events@[i as int]);
        assert(events@.take(i + 1).drop_last() =~= events@.take(i as int));
        match events[i] {
            ToggleMaterialEvent::Show(layer_id) => {
                match layers.get(layer_id) {
                    Some(layer) => {
                        actions.push(RenderAction::SpawnMeshes { layer_id, color: layer.color });
                    },
                    None => {},
                }
            },
            ToggleMaterialEvent::Hide(layer_id) => {
                if layers.get(layer_id).is_some() {
                    match entity_store.take(layer_id) {
                        Some(entities) => {
                            despawn(&entities, &mut actions);
                        },
                        None => {},
                    }
                }
            },
        }
        assert(actions@ =~= before + step.actions);
        i += 1;
    }
    assert(events@.take(i as int) =~= events@);
    let ghost toggled = material_all(layers@, old(entity_store)@, events@);
    let mut j: usize = 0;
    assert(color_events@.take(0) =~= Seq::empty());
    assert(actions@ =~= toggled.actions + Seq::<RenderAction>::empty());
    while j < color_events.len()
        invariant
            j <= color_events.len(),
            toggled == material_all(layers@, old(entity_store)@, events@),
            entity_store@ == recolor_all(
                layers@,
                toggled.entities,
                color_events@.take(j as int),
            ).entities,
            actions@ == toggled.actions + recolor_all(
                layers@,
                toggled.entities,
                color_events@.take(j as int),
            ).actions,
        decreases color_events.len() - j,
    {
        let ghost before = recolor_all(layers@, toggled.entities, color_events@.take(j as int));
        let ghost step = recolor_step(layers@, entity_store@, color_events@[j as int]);
        assert(color_events@.take(j + 1).drop_last() =~= color_events@.take(j as int));
        let layer_id = color_events[j];
        match layers.get(layer_id) {
            Some(layer) => {
                match entity_store.take(layer_id) {
                    Some(entities) => {
                        despawn(&entities, &mut actions);
                        actions.push(RenderAction::SpawnMeshes { layer_id, color: layer.color });
                    },
                    None => {},
                }
            },
            None => {},
        }
        assert(actions@ =~= toggled.actions + (before.actions + step.actions));
        j += 1;
    }
    assert(color_events@.take(j as int) =~= color_events@);
    actions
}

} // verus!
