//! Core logic of a compositor taskbar: an event-reconciliation registry that
//! turns a stream of compositor events into an ordered, filtered snapshot of
//! windows, plus a notification-to-window matching heuristic.

use vstd::prelude::*;

pub mod commands;
pub mod keyed;
pub mod model;
pub mod notify;
pub mod registry;
pub mod settings;
pub mod snapshot;
pub mod text;

pub use commands::Command;
pub use commands::CompositorResponse;
pub use commands::TaskbarError;
pub use keyed::Keyed;
pub use model::TilePos;
pub use model::Window;
pub use model::WindowInfo;
pub use model::Workspace;
pub use registry::Event;
pub use registry::ReadyModel;
pub use registry::Registry;
pub use registry::StateModel;
pub use snapshot::Candidate;

verus! {

} // verus!
