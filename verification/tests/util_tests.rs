use coolbar::components::iconbutton::{IconButtonInit, IconButtonInput, IconButtonModel};
use coolbar::components::power::{PowerInit, PowerInput, PowerModel};
use coolbar::components::razer_mouse::{RazerMouseInput, RazerMouseModel};
use coolbar::components::time::interval_duration;
use coolbar::components::volume::{VolumeInput, VolumeModel};
use coolbar::components::workspaces::workspace_slot_empty;
use coolbar::config::Icon;
use coolbar::icons::{load_codepoints, material_design_icon};
use coolbar::reducers::hyprland::{
    HyprlandInput, HyprlandReducer, HyprlandWrappedWorkspaceId, RawHyprlandMonitor,
    RawHyprlandWindow, RawHyprlandWorkspace,
};
use coolbar::util::{dim_if, pad_with_dim_leading_zeros, str_contains, u32_to_decimal};

#[test]
fn dim_if_wraps_only_when_asked() {
    assert_eq!(dim_if("47%".to_string(), false), "47%");
    assert_eq!(dim_if("47%".to_string(), true), "<span alpha=\"50%\">47%</span>");
}

#[test]
fn padding_prefixes_dimmed_zeros() {
    assert_eq!(
        pad_with_dim_leading_zeros("42%".to_string(), 4),
        "<span alpha=\"50%\">0</span>42%"
    );
    assert_eq!(
        pad_with_dim_leading_zeros("7%".to_string(), 4),
        "<span alpha=\"50%\">00</span>7%"
    );
    assert_eq!(
        pad_with_dim_leading_zeros("100%".to_string(), 4),
        "<span alpha=\"50%\"></span>100%"
    );
}

#[test]
fn decimal_rendering_is_exact() {
    assert_eq!(u32_to_decimal(0), "0");
    assert_eq!(u32_to_decimal(7), "7");
    assert_eq!(u32_to_decimal(1234), "1234");
    assert_eq!(u32_to_decimal(4294967295), "4294967295");
}

#[test]
fn substring_search_sees_all_positions() {
    assert!(str_contains("abc%Sdef", "%S"));
    assert!(str_contains("%S", "%S"));
    assert!(!str_contains("abc", "%S"));
    assert!(str_contains("anything", ""));
}

#[test]
fn clock_ticks_every_second_only_with_a_seconds_escape() {
    assert_eq!(interval_duration("%-I:%M:%S %p"), 1_000_000);
    assert_eq!(interval_duration("%_S"), 1_000_000);
    assert_eq!(interval_duration("%0S"), 1_000_000);
    assert_eq!(interval_duration("%-S"), 1_000_000);
    assert_eq!(interval_duration("%-I:%M %p"), 60_000_000);
}

#[test]
fn codepoint_lookup_falls_back_to_the_help_glyph() {
    let table = load_codepoints("  home e88a\nhelp f1c0\nmouse e323  \n");
    assert_eq!(material_design_icon(&table, "home"), "\u{e88a}");
    assert_eq!(material_design_icon(&table, "mouse"), "\u{e323}");
    assert_eq!(material_design_icon(&table, "no_such_icon"), "\u{f1c0}");
}

#[test]
fn codepoint_duplicates_keep_the_last_entry() {
    let table = load_codepoints("mouse e323\nmouse e324\n");
    assert_eq!(material_design_icon(&table, "mouse"), "\u{e324}");
}

#[test]
fn icon_button_updates_only_the_given_fields() {
    let table = load_codepoints("mouse e323\nbolt e332\n");
    let mut model = IconButtonModel::init(
        IconButtonInit {
            icon: Icon::Material { id: "mouse".to_string() },
            text: "???%".to_string(),
            class: "mouse".to_string(),
            dim: true,
        },
        &table,
    );
    assert_eq!(model.icon, "\u{e323}");
    assert_eq!(model.text, "???%");
    assert!(model.dim);
    model.update(
        IconButtonInput { icon: None, text: Some("42%".to_string()), dim: Some(false) },
        &table,
    );
    assert_eq!(model.icon, "\u{e323}");
    assert_eq!(model.text, "42%");
    assert!(!model.dim);
    model.update(
        IconButtonInput {
            icon: Some(Icon::Material { id: "bolt".to_string() }),
            text: None,
            dim: None,
        },
        &table,
    );
    assert_eq!(model.icon, "\u{e332}");
    assert_eq!(model.text, "42%");
}

#[test]
fn power_panel_follows_the_last_request() {
    let mut model = PowerModel::init(PowerInit::default());
    assert!(!model.panel_open);
    model.update(PowerInput::PanelOpen(true));
    assert!(model.panel_open);
    model.update(PowerInput::PanelOpen(false));
    assert!(!model.panel_open);
}

#[test]
fn volume_renders_muted_icon_and_padded_label() {
    let model = VolumeModel {
        icon: Icon::Literal { text: "V".to_string() },
        icon_muted: Icon::Literal { text: "M".to_string() },
    };
    let update = model.update(&VolumeInput::Update(47, false));
    assert_eq!(update.text.as_deref(), Some("<span alpha=\"50%\">0</span>47%"));
    assert_eq!(update.dim, Some(false));
    assert!(matches!(update.icon, Some(Icon::Literal { ref text }) if text == "V"));
    let muted = model.update(&VolumeInput::Update(5, true));
    assert_eq!(muted.text.as_deref(), Some("<span alpha=\"50%\">00</span>5%"));
    assert_eq!(muted.dim, Some(true));
    assert!(matches!(muted.icon, Some(Icon::Literal { ref text }) if text == "M"));
}

#[test]
fn mouse_label_rounds_and_reports_detection() {
    let model = RazerMouseModel {
        icon: Icon::Literal { text: "R".to_string() },
        icon_charging: Icon::Literal { text: "C".to_string() },
    };
    let update = model.update(&RazerMouseInput::Update {
        detected: true,
        charging: true,
        battery_level: 4250,
    });
    assert_eq!(update.text.as_deref(), Some("<span alpha=\"50%\">0</span>43%"));
    assert_eq!(update.dim, Some(false));
    assert!(matches!(update.icon, Some(Icon::Literal { ref text }) if text == "C"));
    let gone = model.update(&RazerMouseInput::Update {
        detected: false,
        charging: false,
        battery_level: 0,
    });
    assert_eq!(gone.text.as_deref(), Some("Not detected"));
    assert_eq!(gone.dim, Some(true));
}

#[test]
fn workspace_slots_report_emptiness() {
    let monitors = RawHyprlandMonitor::postprocess(vec![RawHyprlandMonitor {
        connector: "HDMI-1".to_string(),
        active: true,
        active_workspace: HyprlandWrappedWorkspaceId { id: 1 },
    }]);
    let workspaces = RawHyprlandWorkspace::postprocess(vec![RawHyprlandWorkspace {
        id: 1,
        name: "one".to_string(),
        monitor_connector: "HDMI-1".to_string(),
        active_window_id: "0x1a".to_string(),
    }]);
    let windows = RawHyprlandWindow::postprocess(vec![RawHyprlandWindow {
        id: "0x1a".to_string(),
        class: "term".to_string(),
        title: "sh".to_string(),
        workspace: HyprlandWrappedWorkspaceId { id: 1 },
    }]);
    let mut state = HyprlandReducer::init();
    state.reduce(HyprlandInput::Refresh(monitors, workspaces, windows));
    assert!(!workspace_slot_empty(&state, 0));
    assert!(workspace_slot_empty(&state, 1));
    state.reduce(HyprlandInput::CloseWindow(0x1a));
    assert!(workspace_slot_empty(&state, 0));
}
