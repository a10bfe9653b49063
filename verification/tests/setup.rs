use parapet::config::{BrightnessConfig, VolumeConfig};
use parapet::setup::{brightness_show_icon, volume_show_icon};
use parapet::config::{
    BarSection, BatteryConfig, ClockConfig, DiskConfig, MemoryConfig, F64Bits, LauncherConfig, SeparatorConfig, WeatherConfig,
    WidgetConfig, WidgetKind, WorkspacesConfig,
};
use parapet::setup::{
    action_command, has_actions, listens_to_scroll, widget_kind_name, widget_setup, PointerEvent,
    ProviderSettings,
};
use parapet::widget::TempUnit;

fn widget(kind: WidgetKind) -> WidgetConfig {
    WidgetConfig {
        position: BarSection::Right,
        interval: None,
        label: None,
        on_click: None,
        on_scroll_up: None,
        on_scroll_down: None,
        extra_class: None,
        kind,
    }
}

#[test]
fn kind_names_match_type_keys() {
    assert_eq!(widget_kind_name(&WidgetKind::Clock(ClockConfig::default())), "clock");
    assert_eq!(widget_kind_name(&WidgetKind::Workspaces(WorkspacesConfig::default())), "workspaces");
    assert_eq!(widget_kind_name(&WidgetKind::Separator(SeparatorConfig::default())), "separator");
}

#[test]
fn setup_defaults() {
    let s = widget_setup(&widget(WidgetKind::Clock(ClockConfig::default())));
    assert_eq!(s.name, "clock");
    assert_eq!(s.interval_ms, Some(1000));
    assert_eq!(s.provider, ProviderSettings::Clock { format: "%H:%M:%S".to_string() });
    let s = widget_setup(&widget(WidgetKind::Disk(DiskConfig::default())));
    assert_eq!(s.interval_ms, Some(30_000));
    assert_eq!(s.provider, ProviderSettings::Disk { mount: "/".to_string() });
    let s = widget_setup(&widget(WidgetKind::Memory(MemoryConfig::default())));
    assert_eq!(s.interval_ms, Some(3000));
    let s = widget_setup(&widget(WidgetKind::Battery(BatteryConfig::default())));
    assert_eq!(s.interval_ms, Some(5000));
    let s = widget_setup(&widget(WidgetKind::Launcher(LauncherConfig::default())));
    assert_eq!(s.interval_ms, None);
    let s = widget_setup(&widget(WidgetKind::Workspaces(WorkspacesConfig::default())));
    assert_eq!(s.interval_ms, Some(100));
    let mut w = widget(WidgetKind::Weather(WeatherConfig {
        latitude: Some(F64Bits(51.5f64.to_bits())),
        longitude: None,
        units: Some("fahrenheit".to_string()),
    }));
    w.label = Some("outside".to_string());
    w.interval = Some(60_000);
    let s = widget_setup(&w);
    assert_eq!(s.name, "outside");
    assert_eq!(s.interval_ms, Some(60_000));
    assert_eq!(
        s.provider,
        ProviderSettings::Weather {
            latitude: F64Bits(51.5f64.to_bits()),
            longitude: F64Bits(0),
            unit: TempUnit::Fahrenheit
        }
    );
    let s = widget_setup(&widget(WidgetKind::Separator(SeparatorConfig::default())));
    assert_eq!(s.provider, ProviderSettings::Separator { glyph: "|".to_string() });
}

#[test]
fn widget_actions() {
    let mut w = widget(WidgetKind::Clock(ClockConfig::default()));
    assert!(!has_actions(&w));
    w.on_click = Some("pavucontrol".to_string());
    assert!(has_actions(&w));
    assert!(!listens_to_scroll(&w));
    w.on_scroll_down = Some("down".to_string());
    assert!(listens_to_scroll(&w));
    assert_eq!(action_command(&w, PointerEvent::Button(1)).as_deref(), Some("pavucontrol"));
    assert_eq!(action_command(&w, PointerEvent::Button(3)), None);
    assert_eq!(action_command(&w, PointerEvent::ScrollUp), None);
    assert_eq!(action_command(&w, PointerEvent::ScrollDown).as_deref(), Some("down"));
    assert_eq!(action_command(&w, PointerEvent::ScrollOther), None);
}

#[test]
fn icons_shown_by_default() {
    assert!(volume_show_icon(&VolumeConfig { show_icon: None }));
    assert!(!volume_show_icon(&VolumeConfig { show_icon: Some(false) }));
    assert!(brightness_show_icon(&BrightnessConfig { show_icon: None }));
    assert!(!brightness_show_icon(&BrightnessConfig { show_icon: Some(false) }));
}
