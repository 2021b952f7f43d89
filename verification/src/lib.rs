//! An ordered store of map layers with hit-testing, selection and change
//! notifications, together with the mailbox through which finished loading
//! work reaches it.

pub mod color;
pub mod geometry;
pub mod layer;
pub mod state;
pub mod invariants;
pub mod layers;
pub mod events;
pub mod mailbox;
pub mod systems;
pub mod laws;
pub mod loader;
pub mod renderer;
