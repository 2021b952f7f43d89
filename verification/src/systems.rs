//! The consumer's side of a processing tick: each handler applies a batch of
//! requests to the store, in order, and records the changes that follow.

use vstd::prelude::*;
use crate::events::{ChangeNotifier, DeleteLayerEvent, LayerEvent, MapClickedEvent,
    MoveLayerEvent, SetLayerVisibilityEvent, ToggleLayerVisibilityEvent, UpdateLayerColorEvent};
use crate::layer::{LayerId, UnassignedLayer};
use crate::layers::Layers;
use crate::mailbox::reversed;
use crate::state::{StoreState, has_id, top_hit};

verus! {

/// A store together with the events that led to it.
pub struct Outcome {
    pub state: StoreState,
    pub events: Seq<LayerEvent>,
}

/// The events that one visibility toggle reports: the direction of the
/// change, or nothing for an unknown layer.
pub open spec fn toggle_events(state: StoreState, id: LayerId) -> Seq<LayerEvent> {
    match state.get(id) {
        Some(layer) => if layer.visible {
            seq![LayerEvent::BecameHidden(id)]
        } else {
            seq![LayerEvent::BecameVisible(id)]
        },
        None => Seq::empty(),
    }
}

/// The store and the events after the toggles were handled in order.
pub open spec fn toggled_all(state: StoreState, requests: Seq<ToggleLayerVisibilityEvent>) -> Outcome
    decreases requests.len(),
{
    if requests.len() == 0 {
        Outcome { state, events: Seq::empty() }
    } else {
        let before = toggled_all(state, requests.drop_last());
        let id = requests.last().0;
        Outcome {
            state: before.state.toggled(id),
            events: before.events + toggle_events(before.state, id),
        }
    }
}

/// The events that one setting of the visibility reports: the direction of
/// the change where the layer is known and was not in that state already.
pub open spec fn visibility_events(state: StoreState, request: SetLayerVisibilityEvent) -> Seq<
    LayerEvent,
> {
    match state.get(request.0) {
        Some(layer) => if layer.visible == request.1 {
            Seq::empty()
        } else if request.1 {
            seq![LayerEvent::BecameVisible(request.0)]
        } else {
            seq![LayerEvent::BecameHidden(request.0)]
        },
        None => Seq::empty(),
    }
}

/// The store and the events after the visibilities were set in order.
pub open spec fn visibility_set_all(state: StoreState, requests: Seq<SetLayerVisibilityEvent>) -> Outcome
    decreases requests.len(),
{
    if requests.len() == 0 {
        Outcome { state, events: Seq::empty() }
    } else {
        let before = visibility_set_all(state, requests.drop_last());
        let request = requests.last();
        Outcome {
            state: before.state.with_visibility(request.0, request.1),
            events: before.events + visibility_events(before.state, request),
        }
    }
}

/// The events that one recolouring reports: one for a known layer.
pub open spec fn color_events(state: StoreState, id: LayerId) -> Seq<LayerEvent> {
    if has_id(state.layers, id) {
        seq![LayerEvent::ColorUpdated(id)]
    } else {
        Seq::empty()
    }
}

/// The store and the events after the recolourings were handled in order.
pub open spec fn recolored_all(state: StoreState, requests: Seq<UpdateLayerColorEvent>) -> Outcome
    decreases requests.len(),
{
    if requests.len() == 0 {
        Outcome { state, events: Seq::empty() }
    } else {
        let before = recolored_all(state, requests.drop_last());
        let request = requests.last();
        Outcome {
            state: before.state.with_color(request.0, request.1),
            events: before.events + color_events(before.state, request.0),
        }
    }
}

/// The events that one deletion reports: one for a layer that the store
/// held, nothing for an unknown layer.
pub open spec fn delete_events(state: StoreState, id: LayerId) -> Seq<LayerEvent> {
    if has_id(state.layers, id) {
        seq![LayerEvent::Deleted(id)]
    } else {
        Seq::empty()
    }
}

/// The store and the events after the deletions were handled in order.
pub open spec fn deleted_all(state: StoreState, requests: Seq<DeleteLayerEvent>) -> Outcome
    decreases requests.len(),
{
    if requests.len() == 0 {
        Outcome { state, events: Seq::empty() }
    } else {
        let before = deleted_all(state, requests.drop_last());
        let id = requests.last().0;
        Outcome {
            state: before.state.removed(id),
            events: before.events + delete_events(before.state, id),
        }
    }
}

/// The events that one move reports: one for each of the two layers that
/// changed places, the moved one first, or nothing where nothing moved.
pub open spec fn move_events(state: StoreState, request: MoveLayerEvent) -> Seq<LayerEvent> {
    match state.move_partner(request.0, request.1) {
        Some(partner) => seq![
            LayerEvent::ZIndexUpdated(request.0),
            LayerEvent::ZIndexUpdated(partner),
        ],
        None => Seq::empty(),
    }
}

/// The store and the events after the moves were handled in order.
pub open spec fn moved_all(state: StoreState, requests: Seq<MoveLayerEvent>) -> Outcome
    decreases requests.len(),
{
    if requests.len() == 0 {
        Outcome { state, events: Seq::empty() }
    } else {
        let before = moved_all(state, requests.drop_last());
        let request = requests.last();
        Outcome {
            state: before.state.moved(request.0, request.1),
            events: before.events + move_events(before.state, request),
        }
    }
}

/// The events that one click reports: the new selection where it differs
/// from the old one.
pub open spec fn click_events(state: StoreState, click: MapClickedEvent) -> Seq<LayerEvent> {
    if top_hit(state.layers, click.0) != state.selected {
        seq![LayerEvent::SelectionChanged(top_hit(state.layers, click.0))]
    } else {
        Seq::empty()
    }
}

/// The store and the events after the clicks were handled in order.
pub open spec fn clicked_all(state: StoreState, clicks: Seq<MapClickedEvent>) -> Outcome
    decreases clicks.len(),
{
    if clicks.len() == 0 {
        Outcome { state, events: Seq::empty() }
    } else {
        let before = clicked_all(state, clicks.drop_last());
        let click = clicks.last();
        Outcome {
            state: before.state.clicked(click.0),
            events: before.events + click_events(before.state, click),
        }
    }
}

/// The store and the events after the records were offered in order. A
/// record is added, and reported as created, while the store has
/// identifiers left; after that records are dropped.
pub open spec fn created_all(state: StoreState, candidates: Seq<UnassignedLayer>) -> Outcome
    decreases candidates.len(),
{
    if candidates.len() == 0 {
        Outcome { state, events: Seq::empty() }
    } else {
        let before = created_all(state, candidates.drop_last());
        if before.state.issued < u64::MAX {
            Outcome {
                state: before.state.added(candidates.last()),
                events: before.events.push(
                    LayerEvent::Created(LayerId(before.state.issued as u64)),
                ),
            }
        } else {
            before
        }
    }
}

/// The store and the events after the outcomes of finished loading work
/// were handled in order: the records of a success are offered to the
/// store, a failure changes nothing.
pub open spec fn loaded_all<E>(
    state: StoreState,
    outcomes: Seq<Result<Vec<UnassignedLayer>, E>>,
) -> Outcome
    decreases outcomes.len(),
{
    if outcomes.len() == 0 {
        Outcome { state, events: Seq::empty() }
    } else {
        let before = loaded_all(state, outcomes.drop_last());
        match outcomes.last() {
            Ok(candidates) => {
                let after = created_all(before.state, candidates@);
                Outcome { state: after.state, events: before.events + after.events }
            },
            Err(_) => before,
        }
    }
}

/// Every record in the outcomes carries the bounding rectangles of its
/// geometries.
pub open spec fn all_well_formed<E>(outcomes: Seq<Result<Vec<UnassignedLayer>, E>>) -> bool {
    forall|i: int, j: int|
        0 <= i < outcomes.len() && outcomes[i] is Ok && 0 <= j < outcomes[i]->Ok_0@.len()
            ==> (#[trigger] outcomes[i]->Ok_0@[j]).wf()
}

/// Flips the visibility of each named layer and reports the direction of
/// each change. A request for an unknown layer is passed over.
pub fn handle_toggle_layer_visibility_events(
    requests: &Vec<ToggleLayerVisibilityEvent>,
    layers: &mut Layers,
    notifier: &mut ChangeNotifier,
)
    requires
        old(layers).wf(),
    ensures
        final(layers).wf(),
        final(layers)@ == toggled_all(old(layers)@, requests@).state,
        final(notifier)@ == old(notifier)@ + toggled_all(old(layers)@, requests@).events,
{
    let mut i: usize = 0;
    assert(requests@.take(0) =~= Seq::empty());
    assert(notifier@ =~= old(notifier)@ + Seq::<LayerEvent>::empty());
    while i < requests.len()
        invariant
            i <= requests.len(),
            layers.wf(),
            layers@ == toggled_all(old(layers)@, requests@.take(i as int)).state,
            notifier@ == old(notifier)@ + toggled_all(old(layers)@, requests@.take(i as int)).events,
        decreases requests.len() - i,
    {
        let id = requests[i].0;
        let ghost before = toggled_all(old(layers)@, requests@.take(i as int));
        assert(requests@.take(i + 1).drop_last() =~= requests@.take(i as int));
        match layers.toggle_visibility(id) {
            Some(visible) => {
                if visible {
                    notifier.emit(LayerEvent::BecameVisible(id));
                } else {
                    notifier.emit(LayerEvent::BecameHidden(id));
                }
            },
            None => {},
        }
        assert(notifier@ =~= old(notifier)@ + (before.events + toggle_events(before.state, id)));
        i += 1;
    }
    assert(requests@.take(i as int) =~= requests@);
}

/// Shows or hides each named layer as asked and reports each layer that
/// became visible or hidden by it. A request for an unknown layer is passed
/// over.
pub fn handle_set_layer_visibility_events(
    requests: &Vec<SetLayerVisibilityEvent>,
    layers: &mut Layers,
    notifier: &mut ChangeNotifier,
)
    requires
        old(layers).wf(),
    ensures
        final(layers).wf(),
        final(layers)@ == visibility_set_all(old(layers)@, requests@).state,
        final(notifier)@ == old(notifier)@ + visibility_set_all(old(layers)@, requests@).events,
{
    let mut i: usize = 0;
    assert(requests@.take(0) =~= Seq::empty());
    assert(notifier@ =~= old(notifier)@ + Seq::<LayerEvent>::empty());
    while i < requests.len()
        invariant
            i <= requests.len(),
            layers.wf(),
            layers@ == visibility_set_all(old(layers)@, requests@.take(i as int)).state,
            notifier@ == old(notifier)@ + visibility_set_all(
                old(layers)@,
                requests@.take(i as int),
            ).events,
        decreases requests.len() - i,
    {
        let request = requests[i];
        let ghost before = visibility_set_all(old(layers)@, requests@.take(i as int));
        assert(requests@.take(i + 1).drop_last() =~= requests@.take(i as int));
        let changes = match layers.get(request.0) {
            Some(layer) => layer.visible != request.1,
            None => false,
        };
        let _ = layers.set_visibility(request.0, request.1);
        if changes {
            if request.1 {
                notifier.emit(LayerEvent::BecameVisible(request.0));
            } else {
                notifier.emit(LayerEvent::BecameHidden(request.0));
            }
        }
        assert(notifier@ =~= old(notifier)@ + (before.events + visibility_events(
            before.state,
            request,
        )));
        i += 1;
    }
    assert(requests@.take(i as int) =~= requests@);
}

/// Gives each named layer its new colour and reports each change. A
/// request for an unknown layer is passed over.
pub fn handle_update_color_events(
    requests: &Vec<UpdateLayerColorEvent>,
    layers: &mut Layers,
    notifier: &mut ChangeNotifier,
)
    requires
        old(layers).wf(),
    ensures
        final(layers).wf(),
        final(layers)@ == recolored_all(old(layers)@, requests@).state,
        final(notifier)@ == old(notifier)@ + recolored_all(old(layers)@, requests@).events,
{
    let mut i: usize = 0;
    assert(requests@.take(0) =~= Seq::empty());
    assert(notifier@ =~= old(notifier)@ + Seq::<LayerEvent>::empty());
    while i < requests.len()
        invariant
            i <= requests.len(),
            layers.wf(),
            layers@ == recolored_all(old(layers)@, requests@.take(i as int)).state,
            notifier@ == old(notifier)@ + recolored_all(
                old(layers)@,
                requests@.take(i as int),
            ).events,
        decreases requests.len() - i,
    {
        let request = requests[i];
        let ghost before = recolored_all(old(layers)@, requests@.take(i as int));
        assert(requests@.take(i + 1).drop_last() =~= requests@.take(i as int));
        if layers.set_color(request.0, request.1) {
            notifier.emit(LayerEvent::ColorUpdated(request.0));
        }
        assert(notifier@ =~= old(notifier)@ + (before.events + color_events(
            before.state,
            request.0,
        )));
        i += 1;
    }
    assert(requests@.take(i as int) =~= requests@);
}

/// Removes each named layer and reports each layer that was removed. A
/// request for an unknown layer is passed over.
pub fn handle_delete_layer_events(
    requests: &Vec<DeleteLayerEvent>,
    layers: &mut Layers,
    notifier: &mut ChangeNotifier,
)
    requires
        old(layers).wf(),
    ensures
        final(layers).wf(),
        final(layers)@ == deleted_all(old(layers)@, requests@).state,
        final(notifier)@ == old(notifier)@ + deleted_all(old(layers)@, requests@).events,
{
    let mut i: usize = 0;
    assert(requests@.take(0) =~= Seq::empty());
    assert(notifier@ =~= old(notifier)@ + Seq::<LayerEvent>::empty());
    while i < requests.len()
        invariant
            i <= requests.len(),
            layers.wf(),
            layers@ == deleted_all(old(layers)@, requests@.take(i as int)).state,
            notifier@ == old(notifier)@ + deleted_all(old(layers)@, requests@.take(i as int)).events,
        decreases requests.len() - i,
    {
        let id = requests[i].0;
        let ghost before = deleted_all(old(layers)@, requests@.take(i as int));
        assert(requests@.take(i + 1).drop_last() =~= requests@.take(i as int));
        let held = layers.get(id).is_some();
        layers.remove(id);
        if held {
            notifier.emit(LayerEvent::Deleted(id));
        }
        assert(notifier@ =~= old(notifier)@ + (before.events + delete_events(before.state, id)));
        i += 1;
    }
    assert(requests@.take(i as int) =~= requests@);
}

/// Moves each named layer one step and reports both layers that changed
/// places. A request for an unknown layer, or one that would move a layer
/// past either end of the stack, is passed over.
pub fn handle_move_layer_events(
    requests: &Vec<MoveLayerEvent>,
    layers: &mut Layers,
    notifier: &mut ChangeNotifier,
)
    requires
        old(layers).wf(),
    ensures
        final(layers).wf(),
        final(layers)@ == moved_all(old(layers)@, requests@).state,
        final(notifier)@ == old(notifier)@ + moved_all(old(layers)@, requests@).events,
{
    let mut i: usize = 0;
    assert(requests@.take(0) =~= Seq::empty());
    assert(notifier@ =~= old(notifier)@ + Seq::<LayerEvent>::empty());
    while i < requests.len()
        invariant
            i <= requests.len(),
            layers.wf(),
            layers@ == moved_all(old(layers)@, requests@.take(i as int)).state,
            notifier@ == old(notifier)@ + moved_all(old(layers)@, requests@.take(i as int)).events,
        decreases requests.len() - i,
    {
        let request = requests[i];
        let ghost before = moved_all(old(layers)@, requests@.take(i as int));
        assert(requests@.take(i + 1).drop_last() =~= requests@.take(i as int));
        match layers.move_layer(request.0, request.1) {
            Some(other_layer_id) => {
                notifier.emit(LayerEvent::ZIndexUpdated(request.0));
                notifier.emit(LayerEvent::ZIndexUpdated(other_layer_id));
            },
            None => {},
        }
        assert(notifier@ =~= old(notifier)@ + (before.events + move_events(before.state, request)));
        i += 1;
    }
    assert(requests@.take(i as int) =~= requests@);
}

/// Selects, for each click in turn, the topmost layer under it, and
/// reports each change of the selection.
pub fn handle_map_clicked_events(
    clicks: &Vec<MapClickedEvent>,
    layers: &mut Layers,
    notifier: &mut ChangeNotifier,
)
    requires
        old(layers).wf(),
    ensures
        final(layers).wf(),
        final(layers)@ == clicked_all(old(layers)@, clicks@).state,
        final(notifier)@ == old(notifier)@ + clicked_all(old(layers)@, clicks@).events,
{
    let mut i: usize = 0;
    assert(clicks@.take(0) =~= Seq::empty());
    assert(notifier@ =~= old(notifier)@ + Seq::<LayerEvent>::empty());
    while i < clicks.len()
        invariant
            i <= clicks.len(),
            layers.wf(),
            layers@ == clicked_all(old(layers)@, clicks@.take(i as int)).state,
            notifier@ == old(notifier)@ + clicked_all(old(layers)@, clicks@.take(i as int)).events,
        decreases clicks.len() - i,
    {
        let ghost before = clicked_all(old(layers)@, clicks@.take(i as int));
        assert(clicks@.take(i + 1).drop_last() =~= clicks@.take(i as int));
        if layers.set_selected_layer_from_mouse_press(&clicks[i].0) {
            notifier.emit(LayerEvent::SelectionChanged(layers.selected_layer_id()));
        }
        assert(notifier@ =~= old(notifier)@ + (before.events + click_events(
            before.state,
            clicks@[i as int],
        )));
        i += 1;
    }
    assert(clicks@.take(i as int) =~= clicks@);
}

/// Offers the records to the store in order and reports each layer that
/// the store created.
pub fn add_loaded_layers(
    candidates: Vec<UnassignedLayer>,
    layers: &mut Layers,
    notifier: &mut ChangeNotifier,
)
    requires
        old(layers).wf(),
        forall|j: int| 0 <= j < candidates@.len() ==> (#[trigger] candidates@[j]).wf(),
    ensures
        final(layers).wf(),
        final(layers)@ == created_all(old(layers)@, candidates@).state,
        final(notifier)@ == old(notifier)@ + created_all(old(layers)@, candidates@).events,
{
    let mut waiting = reversed(candidates);
    let ghost all = candidates@;
    let ghost mut done: int = 0;
    assert(all.take(0) =~= Seq::empty());
    assert(notifier@ =~= old(notifier)@ + Seq::<LayerEvent>::empty());
    while waiting.len() > 0
        invariant
            0 <= done <= all.len(),
            waiting@.len() == all.len() - done,
            forall|k: int| 0 <= k < waiting@.len() ==> waiting@[k] == all[all.len() - 1 - k],
            forall|j: int| 0 <= j < all.len() ==> (#[trigger] all[j]).wf(),
            layers.wf(),
            layers@ == created_all(old(layers)@, all.take(done)).state,
            notifier@ == old(notifier)@ + created_all(old(layers)@, all.take(done)).events,
        decreases waiting@.len(),
    {
        let ghost before = created_all(old(layers)@, all.take(done));
        assert(all.take(done + 1).drop_last() =~= all.take(done));
        assert(all.take(done + 1).last() == all[done]);
        match waiting.pop() {
            Some(unassigned_layer) => {
                assert(unassigned_layer == all[done]);
                if layers.can_add() {
                    let layer_id = layers.add(unassigned_layer);
                    notifier.emit(LayerEvent::Created(layer_id));
                    assert(notifier@ =~= old(notifier)@ + before.events.push(
                        LayerEvent::Created(layer_id),
                    ));
                }
            },
            None => {},
        }
        proof {
            done = done + 1;
        }
    }
    assert(all.take(done) =~= all);
}

/// Handles the outcomes of finished loading work in order: the records of
/// a success are offered to the store and each created layer is reported;
/// a failure is dropped.
pub fn handle_loaded_layers<E>(
    outcomes: Vec<Result<Vec<UnassignedLayer>, E>>,
    layers: &mut Layers,
    notifier: &mut ChangeNotifier,
)
    requires
        old(layers).wf(),
        all_well_formed(outcomes@),
    ensures
        final(layers).wf(),
        final(layers)@ == loaded_all(old(layers)@, outcomes@).state,
        final(notifier)@ == old(notifier)@ + loaded_all(old(layers)@, outcomes@).events,
{
    let mut waiting = reversed(outcomes);
    let ghost all = outcomes@;
    let ghost mut done: int = 0;
    assert(all.take(0) =~= Seq::empty());
    assert(notifier@ =~= old(notifier)@ + Seq::<LayerEvent>::empty());
    while waiting.len() > 0
        invariant
            0 <= done <= all.len(),
            waiting@.len() == all.len() - done,
            forall|k: int| 0 <= k < waiting@.len() ==> waiting@[k] == all[all.len() - 1 - k],
            all_well_formed(all),
            layers.wf(),
            layers@ == loaded_all(old(layers)@, all.take(done)).state,
            notifier@ == old(notifier)@ + loaded_all(old(layers)@, all.take(done)).events,
        decreases waiting@.len(),
    {
        let ghost before = loaded_all(old(layers)@, all.take(done));
        assert(all.take(done + 1).drop_last() =~= all.take(done));
        assert(all.take(done + 1).last() == all[done]);
        match waiting.pop() {
            Some(Ok(unassigned_layers)) => {
                assert(all[done] == Ok::<Vec<UnassignedLayer>, E>(unassigned_layers));
                assert forall|j: int| 0 <= j < unassigned_layers@.len() implies (
                #[trigger] unassigned_layers@[j]).wf() by {
                    assert(all[done]->Ok_0@[j].wf());
                }
                add_loaded_layers(unassigned_layers, layers, notifier);
                assert(notifier@ =~= old(notifier)@ + (before.events + created_all(
                    before.state,
                    unassigned_layers@,
                ).events));
            },
            Some(Err(_)) => {
                assert(all[done] is Err);
            },
            None => {},
        }
        proof {
            done = done + 1;
        }
    }
    assert(all.take(done) =~= all);
}

} // verus!
