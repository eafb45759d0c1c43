//! The workspaces component: renders the compositor state as a dot strip.
//!
//! The drawing itself (geometry, easing, the canvas) is presentation and
//! lives outside the library; what it needs from the state — which
//! workspace slot is empty — is decided here.

use vstd::prelude::*;

use crate::data::wayland_compositor::{WaylandCompositor, WorkspaceId};
use crate::keyed::find_keyed;
use crate::reducers::hyprland::HyprlandReducer;

verus! {

/// Messages for the workspaces component.
#[derive(Debug)]
pub enum WorkspacesInput {
    /// A fresh compositor state snapshot.
    Update(HyprlandReducer),
    /// The drawing area was resized to the given width and height.
    Resize((i32, i32)),
    /// Draw the next frame.
    Draw,
}

/// Initial settings of the workspaces component.
#[derive(Debug, Clone)]
pub struct WorkspacesInit {

}

/// Whether the workspace slot `id` renders as empty: it does when no
/// workspace with that id is present, or the present one has no windows.
pub fn workspace_slot_empty(state: &HyprlandReducer, id: WorkspaceId) -> (r: bool)
    ensures
        r == match find_keyed(state.workspaces@, id as int) {
            Some(ws) => state.spec_workspace_is_empty(ws),
            None => true,
        },
{
    match crate::keyed::find_by_key(&state.workspaces, id) {
        Some(ws) => state.workspace_is_empty(ws),
        None => true,
    }
}

} // verus!
