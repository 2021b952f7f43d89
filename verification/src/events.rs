//! What the store is asked to do, and what it reports back.

use vstd::prelude::*;
use crate::color::Color;
use crate::geometry::Point;
use crate::layer::LayerId;
use crate::mailbox::Mailbox;
use crate::state::MoveDirection;

verus! {

/// A change of the store that others may want to react to.
#[derive(Clone, Copy, Debug, PartialEq, Eq)]
pub enum LayerEvent {
    /// A layer was added to the store.
    Created(LayerId),
    /// A layer was removed from the store.
    Deleted(LayerId),
    /// A hidden layer is shown again.
    BecameVisible(LayerId),
    /// A shown layer is hidden now.
    BecameHidden(LayerId),
    /// A layer has a new colour.
    ColorUpdated(LayerId),
    /// A layer has a new place in the stack.
    ZIndexUpdated(LayerId),
    /// Another layer, or none, is selected now.
    SelectionChanged(Option<LayerId>),
}

/// Asks to flip the visibility of a layer.
#[derive(Clone, Copy, Debug)]
pub struct ToggleLayerVisibilityEvent(pub LayerId);

/// Asks to show a layer (`true`) or to hide it (`false`).
#[derive(Clone, Copy, Debug)]
pub struct SetLayerVisibilityEvent(pub LayerId, pub bool);

/// Asks to give a layer a colour.
#[derive(Clone, Copy, Debug)]
pub struct UpdateLayerColorEvent(pub LayerId, pub Color);

/// Asks to delete a layer.
#[derive(Clone, Copy, Debug)]
pub struct DeleteLayerEvent(pub LayerId);

/// Asks to move a layer one step through the stack.
#[derive(Clone, Copy, Debug)]
pub struct MoveLayerEvent(pub LayerId, pub MoveDirection);

/// Reports a click on the map at a point in projected coordinates.
#[derive(Debug)]
pub struct MapClickedEvent(pub Point);

/// Collects the store's change events for those who subscribe to them.
#[derive(Debug)]
pub struct ChangeNotifier {
    outbox: Mailbox<LayerEvent>,
}

impl View for ChangeNotifier {
    type V = Seq<LayerEvent>;

    closed spec fn view(&self) -> Seq<LayerEvent> {
        self.outbox@
    }
}

impl ChangeNotifier {
    /// A notifier with nothing to report.
    pub fn new() -> (notifier: ChangeNotifier)
        ensures
            notifier@ == Seq::<LayerEvent>::empty(),
    {
        ChangeNotifier { outbox: Mailbox::new() }
    }

    /// Records an event behind those recorded already.
    pub fn emit(&mut self, event: LayerEvent)
        ensures
            final(self)@ == old(self)@.push(event),
    {
        self.outbox.deliver(event);
    }

    /// Hands out the recorded events, the oldest first, and forgets them.
    pub fn drain(&mut self) -> (events: Vec<LayerEvent>)
        ensures
            events@ == old(self)@,
            final(self)@ == Seq::<LayerEvent>::empty(),
    {
        self.outbox.drain()
    }
}

} // verus!
