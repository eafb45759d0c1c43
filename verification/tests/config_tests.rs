use coolbar::config::{
    load, Animations, Config, ConfigComponent, Icon, Monitor, PollingRate,
};
use coolbar::icons::load_codepoints;

#[test]
fn default_config_matches_the_built_in_settings() {
    let config = Config::default();
    assert_eq!(config.theme.font_family, "Iosevka");
    assert_eq!(config.theme.font_size_px, 16);
    assert_eq!(config.theme.outer_padding, "20px");
    assert_eq!(config.theme.background, "#24273A");
    assert_eq!(config.layout.left, vec!["workspaces".to_string()]);
    assert_eq!(config.layout.center, vec!["time".to_string()]);
    assert_eq!(config.layout.right, vec!["razer_mouse".to_string(), "volume".to_string()]);
    assert_eq!(config.providers.wayland.compositor, "hyprland");
    assert_eq!(
        config.providers.openrazer.polling_rate,
        PollingRate::VariedByRatio { interval: 2_000_000, variance: 250_000 }
    );
    assert_eq!(config.monitors.len(), 1);
    assert_eq!(config.monitors[0].0, "*");
    assert_eq!(config.components.len(), 4);
}

#[test]
fn load_builds_the_default_config() {
    let config = load();
    assert_eq!(config.theme.font_family, "Iosevka");
    assert_eq!(config.components.len(), 4);
}

#[test]
fn scss_variables_render_one_line_per_setting() {
    let config = Config::default();
    assert_eq!(
        config.scss_variables(),
        "$font_family: Iosevka;\n$font_size: 16px;\n$outer_padding: 20px;\n$background: #24273A;"
    );
}

#[test]
fn monitor_lookup_prefers_the_exact_entry() {
    let mut config = Config::default();
    let special = Monitor { animations: Animations { enable: false, target_fps: 30 } };
    config.monitors.insert(0, ("DP-1".to_string(), special));
    assert_eq!(config.monitor("DP-1"), special);
}

#[test]
fn monitor_lookup_falls_back_to_wildcard_patterns() {
    let mut config = Config::default();
    let dimmed = Monitor { animations: Animations { enable: false, target_fps: 30 } };
    config.monitors = vec![("DP-*".to_string(), dimmed)];
    assert_eq!(config.monitor("DP-1"), dimmed);
    assert_eq!(config.monitor("DP-22"), dimmed);
    let fallback = config.monitor("HDMI-1");
    assert!(fallback.animations.enable);
    assert_eq!(fallback.animations.target_fps, 60);
}

#[test]
fn component_lookup_finds_configured_instances() {
    let config = Config::default();
    assert!(matches!(config.component("time"), Some(ConfigComponent::Time { .. })));
    assert!(matches!(config.component("volume"), Some(ConfigComponent::Volume { .. })));
    assert!(config.component("battery").is_none());
}

#[test]
fn icons_render_literals_glyphs_and_sequences() {
    let table = load_codepoints("bolt e332\nmouse e323\nschedule e8b5\n");
    let literal = Icon::Literal { text: "12:00".to_string() };
    assert_eq!(literal.to_string(&table), "12:00");
    let glyph = Icon::Material { id: "mouse".to_string() };
    assert_eq!(glyph.to_string(&table), "\u{e323}");
    let both = Icon::Multiple {
        icons: vec![
            Icon::Material { id: "mouse".to_string() },
            Icon::Material { id: "bolt".to_string() },
        ],
    };
    assert_eq!(both.to_string(&table), "\u{e323}\u{e332}");
    let clone = both.clone();
    assert_eq!(clone.to_string(&table), "\u{e323}\u{e332}");
}
