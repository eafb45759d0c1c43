//! Capability interface over a Wayland compositor's normalized state.
//!
//! Consumers read monitors, workspaces and windows through these traits only,
//! so another compositor backend can be substituted without touching them.
//! Each executable method returns exactly what the matching `spec` function
//! of the implementation says; the one concrete backend defines those
//! functions over its snapshot fields.

use vstd::prelude::*;

verus! {

/// A display output's name on the wire, e.g. `HDMI-1`.
pub type MonitorConnector = String;

/// Normalized (0-based) workspace identifier.
pub type WorkspaceId = usize;

/// Window identifier decoded from its hexadecimal wire address.
pub type WindowId = usize;

/// A display output.
pub trait WaylandCompositorMonitor: Sized {
    /// The connector name.
    spec fn spec_connector(&self) -> Seq<char>;

    /// Returns the connector name.
    fn connector(&self) -> (r: &str)
        ensures
            r@ == self.spec_connector(),
    ;
}

/// A workspace.
pub trait WaylandCompositorWorkspace: Sized {
    /// The workspace's display name.
    spec fn spec_name(&self) -> Seq<char>;

    /// Returns the workspace's display name.
    fn name(&self) -> (r: &str)
        ensures
            r@ == self.spec_name(),
    ;
}

/// A window.
pub trait WaylandCompositorWindow: Sized {
    /// The window's application class.
    spec fn spec_class(&self) -> Seq<char>;

    /// The window's title.
    spec fn spec_title(&self) -> Seq<char>;

    /// Returns the window's application class.
    fn class(&self) -> (r: &str)
        ensures
            r@ == self.spec_class(),
    ;

    /// Returns the window's title.
    fn title(&self) -> (r: &str)
        ensures
            r@ == self.spec_title(),
    ;
}

/// A compositor backend's normalized entity graph.
pub trait WaylandCompositor: Sized {
    type Monitor;
    type Workspace;
    type Window;

    /// The monitors of the snapshot, in enumeration order.
    spec fn spec_monitors(&self) -> Seq<Self::Monitor>;

    /// True when some monitor is marked active.
    spec fn spec_has_active_monitor(&self) -> bool;

    /// The first monitor marked active.
    spec fn spec_active_monitor(&self) -> Self::Monitor;

    /// Whether the backend reports this monitor as empty.
    spec fn spec_monitor_is_empty(&self, monitor: Self::Monitor) -> bool;

    /// The workspaces of the snapshot, in enumeration order.
    spec fn spec_workspaces(&self) -> Seq<Self::Workspace>;

    /// The workspace the given monitor shows, when present.
    spec fn spec_active_workspace(&self, monitor: Self::Monitor) -> Option<Self::Workspace>;

    /// True when no window lives in the workspace.
    spec fn spec_workspace_is_empty(&self, workspace: Self::Workspace) -> bool;

    /// The workspaces owned by the monitor, in enumeration order.
    spec fn spec_workspaces_in_monitor(&self, monitor: Self::Monitor) -> Seq<Self::Workspace>;

    /// The windows of the snapshot, in enumeration order.
    spec fn spec_windows(&self) -> Seq<Self::Window>;

    /// The window the given workspace last activated, when present.
    spec fn spec_active_window(&self, workspace: Self::Workspace) -> Option<Self::Window>;

    /// The windows living in the workspace, in enumeration order.
    spec fn spec_windows_in_workspace(&self, workspace: Self::Workspace) -> Seq<Self::Window>;

    /// Returns all monitors.
    fn monitors(&self) -> (r: &Vec<Self::Monitor>)
        ensures
            r@ == self.spec_monitors(),
    ;

    /// Returns the active monitor.
    fn active_monitor(&self) -> (r: &Self::Monitor)
        requires
            self.spec_has_active_monitor(),
        ensures
            *r == self.spec_active_monitor(),
    ;

    /// Tests whether the monitor is empty.
    fn monitor_is_empty(&self, monitor: &Self::Monitor) -> (r: bool)
        ensures
            r == self.spec_monitor_is_empty(*monitor),
    ;

    /// Returns all workspaces.
    fn workspaces(&self) -> (r: &Vec<Self::Workspace>)
        ensures
            r@ == self.spec_workspaces(),
    ;

    /// Returns the workspace the monitor shows, when present.
    fn active_workspace<'a>(&'a self, monitor: &Self::Monitor) -> (r: Option<
        &'a Self::Workspace,
    >)
        ensures
            r is Some <==> self.spec_active_workspace(*monitor) is Some,
            r matches Some(w) ==> self.spec_active_workspace(*monitor) == Some(*w),
    ;

    /// Tests whether no window lives in the workspace.
    fn workspace_is_empty(&self, workspace: &Self::Workspace) -> (r: bool)
        ensures
            r == self.spec_workspace_is_empty(*workspace),
    ;

    /// Returns the workspaces owned by the monitor.
    fn workspaces_in_monitor<'a>(&'a self, monitor: &Self::Monitor) -> (r: Vec<
        &'a Self::Workspace,
    >)
        ensures
            r@.map_values(|w: &Self::Workspace| *w) == self.spec_workspaces_in_monitor(*monitor),
    ;

    /// Returns all windows.
    fn windows(&self) -> (r: &Vec<Self::Window>)
        ensures
            r@ == self.spec_windows(),
    ;

    /// Returns the window the workspace last activated, when present.
    fn active_window<'a>(&'a self, workspace: &Self::Workspace) -> (r: Option<&'a Self::Window>)
        ensures
            r is Some <==> self.spec_active_window(*workspace) is Some,
            r matches Some(w) ==> self.spec_active_window(*workspace) == Some(*w),
    ;

    /// Returns the windows living in the workspace.
    fn windows_in_workspace<'a>(&'a self, workspace: &Self::Workspace) -> (r: Vec<
        &'a Self::Window,
    >)
        ensures
            r@.map_values(|w: &Self::Window| *w) == self.spec_windows_in_workspace(*workspace),
    ;
}

} // verus!
