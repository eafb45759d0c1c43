use coolbar::data::wayland_compositor::{
    WaylandCompositor, WaylandCompositorMonitor, WaylandCompositorWindow,
    WaylandCompositorWorkspace,
};
use coolbar::reducers::hyprland::{
    dispatch_event_line, HyprlandError, HyprlandEvent, HyprlandInput, HyprlandReducer,
    HyprlandWrappedWorkspaceId, RawHyprlandMonitor, RawHyprlandWindow, RawHyprlandWorkspace,
};

fn raw_monitor(connector: &str, active: bool, ws: isize) -> RawHyprlandMonitor {
    RawHyprlandMonitor {
        connector: connector.to_string(),
        active,
        active_workspace: HyprlandWrappedWorkspaceId { id: ws },
    }
}

fn raw_workspace(id: isize, name: &str, monitor: &str, window: &str) -> RawHyprlandWorkspace {
    RawHyprlandWorkspace {
        id,
        name: name.to_string(),
        monitor_connector: monitor.to_string(),
        active_window_id: window.to_string(),
    }
}

fn raw_window(id: &str, class: &str, title: &str, ws: isize) -> RawHyprlandWindow {
    RawHyprlandWindow {
        id: id.to_string(),
        class: class.to_string(),
        title: title.to_string(),
        workspace: HyprlandWrappedWorkspaceId { id: ws },
    }
}

#[test]
fn workspace_id_normalizes_one_based() {
    assert_eq!(RawHyprlandWorkspace::fix_id(1), 0);
    assert_eq!(RawHyprlandWorkspace::fix_id(5), 4);
    assert_eq!(RawHyprlandWorkspace::fix_id(10), 9);
}

#[test]
fn window_id_decodes_with_and_without_prefix() {
    assert_eq!(RawHyprlandWindow::fix_id_prefixed("0x1a2b"), 0x1a2b);
    assert_eq!(RawHyprlandWindow::fix_id("1a2b"), 0x1a2b);
    assert_eq!(RawHyprlandWindow::fix_id_prefixed("0x0"), 0);
    assert_eq!(RawHyprlandWindow::fix_id("FF"), 255);
}

#[test]
fn special_workspace_is_filtered() {
    let raw = vec![
        raw_workspace(2, "two", "HDMI-1", "0x10"),
        raw_workspace(-99, "special", "HDMI-1", "0x20"),
        raw_workspace(1, "one", "HDMI-1", "0x30"),
    ];
    let ws = RawHyprlandWorkspace::postprocess(raw);
    assert_eq!(ws.len(), 2);
    assert_eq!(ws[0].id, 0);
    assert_eq!(ws[0].name, "one");
    assert_eq!(ws[1].id, 1);
    assert_eq!(ws[1].name, "two");
}

#[test]
fn windows_on_special_workspace_are_dropped() {
    let raw = vec![
        raw_window("0x2", "term", "sh", 1),
        raw_window("0x1", "edit", "doc", -99),
    ];
    let windows = RawHyprlandWindow::postprocess(raw);
    assert_eq!(windows.len(), 1);
    assert_eq!(windows[0].id, 2);
    assert_eq!(windows[0].workspace_id, 0);
}

#[test]
fn monitor_duplicates_replace_earlier_entries() {
    let raw = vec![
        raw_monitor("HDMI-1", false, 1),
        raw_monitor("DP-1", false, 2),
        raw_monitor("HDMI-1", true, 3),
    ];
    let monitors = RawHyprlandMonitor::postprocess(raw);
    assert_eq!(monitors.len(), 2);
    assert_eq!(monitors[0].connector, "HDMI-1");
    assert!(monitors[0].active);
    assert_eq!(monitors[0].active_workspace_id, 2);
    assert_eq!(monitors[1].connector, "DP-1");
}

fn refreshed_state() -> HyprlandReducer {
    let monitors = RawHyprlandMonitor::postprocess(vec![
        raw_monitor("DP-1", false, 2),
        raw_monitor("HDMI-1", true, 1),
    ]);
    let workspaces = RawHyprlandWorkspace::postprocess(vec![
        raw_workspace(1, "one", "HDMI-1", "0x1a"),
        raw_workspace(2, "two", "DP-1", "0x2b"),
    ]);
    let windows = RawHyprlandWindow::postprocess(vec![
        raw_window("0x1a", "term", "sh", 1),
        raw_window("0x2b", "edit", "doc", 2),
    ]);
    let mut state = HyprlandReducer::init();
    assert!(state.reduce(HyprlandInput::Refresh(monitors, workspaces, windows)));
    state
}

#[test]
fn refresh_round_trip_resolves_active_pointers() {
    let state = refreshed_state();
    let active_monitor = state.active_monitor();
    assert!(active_monitor.active);
    assert_eq!(active_monitor.connector(), "HDMI-1");
    let active_count = state.monitors().iter().filter(|m| m.active).count();
    assert_eq!(active_count, 1);
    let ws = state.active_workspace(active_monitor).expect("workspace resolves");
    assert_eq!(ws.id, 0);
    assert_eq!(ws.name(), "one");
    let win = state.active_window(ws).expect("window resolves");
    assert_eq!(win.id, 0x1a);
    assert_eq!(win.class(), "term");
    assert_eq!(win.title(), "sh");
}

#[test]
fn refresh_twice_yields_identical_state() {
    let build = || {
        (
            RawHyprlandMonitor::postprocess(vec![raw_monitor("HDMI-1", true, 1)]),
            RawHyprlandWorkspace::postprocess(vec![raw_workspace(1, "one", "HDMI-1", "0x1a")]),
            RawHyprlandWindow::postprocess(vec![raw_window("0x1a", "term", "sh", 1)]),
        )
    };
    let mut s1 = refreshed_state();
    let (m, w, x) = build();
    s1.reduce(HyprlandInput::Refresh(m, w, x));
    let mut s2 = HyprlandReducer::init();
    let (m, w, x) = build();
    s2.reduce(HyprlandInput::Refresh(m, w, x));
    assert_eq!(s1.monitors().len(), s2.monitors().len());
    assert_eq!(s1.workspaces().len(), s2.workspaces().len());
    assert_eq!(s1.windows().len(), s2.windows().len());
    assert_eq!(s1.active_monitor().connector(), s2.active_monitor().connector());
    assert_eq!(s1.workspaces()[0].name(), s2.workspaces()[0].name());
    assert_eq!(s1.windows()[0].id, s2.windows()[0].id);
}

#[test]
fn close_window_removes_only_that_window() {
    let mut state = refreshed_state();
    state.reduce(HyprlandInput::CloseWindow(0x1a));
    assert_eq!(state.windows().len(), 1);
    assert_eq!(state.windows()[0].id, 0x2b);
    state.reduce(HyprlandInput::CloseWindow(0x99));
    assert_eq!(state.windows().len(), 1);
}

#[test]
fn updates_before_initialization_are_discarded() {
    let mut state = HyprlandReducer::init();
    assert!(state.reduce(HyprlandInput::CloseWindow(7)));
    assert!(state.reduce(HyprlandInput::ActiveWindow(7)));
    assert_eq!(state.windows().len(), 0);
    assert_eq!(state.monitors().len(), 0);
}

#[test]
fn request_refresh_changes_nothing() {
    let mut state = refreshed_state();
    let before = state.windows().len();
    assert!(HyprlandReducer::requests_refresh(&HyprlandInput::RequestRefresh));
    assert!(!HyprlandReducer::requests_refresh(&HyprlandInput::CloseWindow(1)));
    state.reduce(HyprlandInput::RequestRefresh);
    assert_eq!(state.windows().len(), before);
}

#[test]
fn workspace_queries_follow_the_windows() {
    let state = refreshed_state();
    let ws0 = &state.workspaces()[0];
    let ws1 = &state.workspaces()[1];
    assert!(!state.workspace_is_empty(ws0));
    assert_eq!(state.windows_in_workspace(ws0).len(), 1);
    assert_eq!(state.windows_in_workspace(ws0)[0].id, 0x1a);
    let mut state2 = refreshed_state();
    state2.reduce(HyprlandInput::CloseWindow(0x2b));
    let ws1b = &state2.workspaces()[1];
    assert!(state2.workspace_is_empty(ws1b));
    assert_eq!(ws1.id, ws1b.id);
}

#[test]
fn workspaces_in_monitor_filters_by_connector() {
    let state = refreshed_state();
    let active = state.active_monitor();
    let on_active = state.workspaces_in_monitor(active);
    assert_eq!(on_active.len(), 1);
    assert_eq!(on_active[0].name(), "one");
}

#[test]
fn event_line_without_separator_is_malformed() {
    assert_eq!(
        dispatch_event_line("garbage"),
        Err(HyprlandError::MalformedMessage)
    );
    assert_eq!(
        dispatch_event_line(""),
        Err(HyprlandError::MalformedMessage)
    );
}

#[test]
fn event_lines_dispatch_by_key() {
    assert_eq!(dispatch_event_line("workspace>>2"), Ok(HyprlandEvent::Refresh));
    assert_eq!(dispatch_event_line("openwindow>>deadbeef"), Ok(HyprlandEvent::Refresh));
    assert_eq!(dispatch_event_line("movewindow>>1"), Ok(HyprlandEvent::Refresh));
    assert_eq!(
        dispatch_event_line("activewindowv2>>1a2b"),
        Ok(HyprlandEvent::ActiveWindow(0x1a2b))
    );
    assert_eq!(dispatch_event_line("activewindowv2>>,"), Ok(HyprlandEvent::Ignore));
    assert_eq!(dispatch_event_line("closewindow>>ff"), Ok(HyprlandEvent::CloseWindow(255)));
    assert_eq!(dispatch_event_line("fullscreen>>1"), Ok(HyprlandEvent::Ignore));
    assert_eq!(
        dispatch_event_line("closewindow>>zz"),
        Err(HyprlandError::MalformedMessage)
    );
    assert_eq!(
        dispatch_event_line("activewindowv2>>0xnope"),
        Err(HyprlandError::MalformedMessage)
    );
    assert_eq!(
        dispatch_event_line("closewindow>>ffffffffffffffffff"),
        Err(HyprlandError::MalformedMessage)
    );
    assert_eq!(dispatch_event_line("closewindow>>"), Err(HyprlandError::MalformedMessage));
}

#[test]
fn active_window_update_follows_active_workspace() {
    let mut state = refreshed_state();
    state.reduce(HyprlandInput::ActiveWindow(0x2b));
    let active_monitor = state.active_monitor();
    let ws = state.active_workspace(active_monitor).expect("workspace resolves");
    assert_eq!(ws.id, 0);
    let win = state.active_window(ws).expect("still resolves");
    assert_eq!(win.id, 0x1a);
}
