use parapet::config::{BarConfig, BarSection, F32Bits, WidgetKind};
use parapet::frames_config::{frames_widget_setup, to_typed, FramesConfig, WidgetConfig};
use parapet::validation::ValidationReason;

fn flat(t: &str) -> WidgetConfig {
    WidgetConfig {
        widget_type: t.to_string(),
        position: BarSection::Right,
        interval: None,
        label: None,
        format: None,
        timezone: None,
        interface: None,
        show_interface: None,
        show_swap: None,
        show_icon: None,
        show_names: None,
        warn_threshold: None,
        crit_threshold: None,
        max_results: None,
        latitude: None,
        longitude: None,
        units: None,
        mount: None,
        on_click: None,
        on_scroll_up: None,
        on_scroll_down: None,
        extra_class: None,
    }
}

#[test]
fn frames_validation_thresholds() {
    let mut cpu = flat("cpu");
    cpu.warn_threshold = Some(F32Bits(95.0f32.to_bits()));
    cpu.crit_threshold = Some(F32Bits(80.0f32.to_bits()));
    let config = FramesConfig { bar: BarConfig::default(), widgets: vec![flat("clock"), cpu] };
    let err = config.validate().unwrap_err();
    assert_eq!(err.field, "widgets[1].warn_threshold");
    let mut bat = flat("battery");
    bat.crit_threshold = Some(F32Bits(25.0f32.to_bits()));
    let config = FramesConfig { bar: BarConfig::default(), widgets: vec![bat] };
    let err = config.validate().unwrap_err();
    assert_eq!(err.field, "widgets[0].crit_threshold");
    // Out-of-range values are not a rule of the flat format.
    let mut cpu = flat("cpu");
    cpu.warn_threshold = Some(F32Bits(150.0f32.to_bits()));
    cpu.crit_threshold = Some(F32Bits(200.0f32.to_bits()));
    let config = FramesConfig { bar: BarConfig::default(), widgets: vec![cpu] };
    assert!(config.validate().is_ok());
    let mut config = FramesConfig { bar: BarConfig::default(), widgets: vec![] };
    config.bar.height = 0;
    assert_eq!(config.validate().unwrap_err().reason, ValidationReason::HeightZero);
}

#[test]
fn frames_entries_convert_and_set_up() {
    let mut d = flat("disk");
    d.mount = Some("/home".to_string());
    let t = to_typed(&d).unwrap();
    match t.kind {
        WidgetKind::Disk(ref c) => assert_eq!(c.mount.as_deref(), Some("/home")),
        _ => panic!("expected disk"),
    }
    assert!(to_typed(&flat("unknown")).is_none());
    assert!(frames_widget_setup(&flat("unknown")).is_none());
    let s = frames_widget_setup(&flat("workspaces")).unwrap();
    assert_eq!(s.interval_ms, Some(500));
    assert_eq!(s.name, "workspaces");
    let s = frames_widget_setup(&flat("clock")).unwrap();
    assert_eq!(s.interval_ms, Some(1000));
    assert_eq!(frames_widget_setup(&flat("memory")).unwrap().interval_ms, Some(5000));
    assert_eq!(frames_widget_setup(&flat("battery")).unwrap().interval_ms, Some(30_000));
    assert_eq!(frames_widget_setup(&flat("launcher")).unwrap().interval_ms, None);
    let mut b = flat("battery");
    b.interval = Some(7);
    assert_eq!(frames_widget_setup(&b).unwrap().interval_ms, Some(7));
}
