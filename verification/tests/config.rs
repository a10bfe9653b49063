use parapet::config::{
    monitor_target_from_value, monitor_target_to_value, BarConfig, BarPosition, BarSection,
    BatteryConfig, ClockConfig, CpuConfig, DiskConfig, F32Bits, F64Bits, LauncherConfig,
    MonitorTarget, MonitorValue, MonitorValueError, ParapetConfig, WeatherConfig, WidgetConfig,
    WidgetKind,
};
use parapet::validation::{expand_path, ValidationReason};

fn f32b(v: f32) -> F32Bits {
    F32Bits(v.to_bits())
}

fn f64b(v: f64) -> F64Bits {
    F64Bits(v.to_bits())
}

fn widget(position: BarSection, kind: WidgetKind) -> WidgetConfig {
    WidgetConfig {
        position,
        interval: None,
        label: None,
        on_click: None,
        on_scroll_up: None,
        on_scroll_down: None,
        extra_class: None,
        kind,
    }
}

fn config_with(widgets: Vec<WidgetConfig>) -> ParapetConfig {
    ParapetConfig { bar: BarConfig::default(), widgets }
}

#[test]
fn config_bar_config_default_height_is_thirty() {
    assert_eq!(BarConfig::default().height, 30);
}

#[test]
fn config_bar_config_default_position_is_top() {
    assert_eq!(BarConfig::default().position, BarPosition::Top);
}

#[test]
fn config_bar_config_default_widget_spacing_is_four() {
    assert_eq!(BarConfig::default().widget_spacing, 4);
}

#[test]
fn config_config_validation_rejects_zero_height() {
    let mut config = config_with(vec![]);
    config.bar.height = 0;
    let err = config.validate(Some("/home/u")).unwrap_err();
    assert!(err.field.contains("bar.height"), "error should mention field; got: {}", err.field);
    assert_eq!(err.reason, ValidationReason::HeightZero);
}

#[test]
fn config_config_validation_rejects_inverted_cpu_thresholds() {
    let mut config = config_with(vec![widget(
        BarSection::Right,
        WidgetKind::Cpu(CpuConfig { warn_threshold: Some(f32b(95.0)), crit_threshold: Some(f32b(80.0)) }),
    )]);
    let err = config.validate(Some("/home/u")).unwrap_err();
    assert!(err.field.contains("warn_threshold"), "got: {}", err.field);
    assert_eq!(err.field, "widgets[0].warn_threshold");
    assert_eq!(
        err.reason,
        ValidationReason::CpuThresholdOrder { warn: f32b(95.0), crit: f32b(80.0) }
    );
}

#[test]
fn config_config_validation_accepts_valid_thresholds() {
    let mut config = config_with(vec![widget(
        BarSection::Right,
        WidgetKind::Cpu(CpuConfig { warn_threshold: Some(f32b(80.0)), crit_threshold: Some(f32b(95.0)) }),
    )]);
    assert!(config.validate(Some("/home/u")).is_ok());
}

#[test]
fn validate_rejects_zero_interval() {
    let mut w = widget(BarSection::Center, WidgetKind::Clock(ClockConfig::default()));
    w.interval = Some(0);
    let mut config = config_with(vec![w]);
    let err = config.validate(Some("/home/u")).unwrap_err();
    assert!(err.field.contains("interval"), "expected interval in error; got: {}", err.field);
    assert_eq!(err.reason, ValidationReason::IntervalZero);
}

#[test]
fn validate_rejects_latitude_out_of_range() {
    let mut config = config_with(vec![widget(
        BarSection::Right,
        WidgetKind::Weather(WeatherConfig {
            latitude: Some(f64b(91.0)),
            longitude: Some(f64b(0.0)),
            units: None,
        }),
    )]);
    let err = config.validate(Some("/home/u")).unwrap_err();
    assert!(err.field.contains("latitude"), "expected latitude in error; got: {}", err.field);
}

#[test]
fn validate_rejects_longitude_out_of_range() {
    let mut config = config_with(vec![widget(
        BarSection::Right,
        WidgetKind::Weather(WeatherConfig {
            latitude: Some(f64b(0.0)),
            longitude: Some(f64b(181.0)),
            units: None,
        }),
    )]);
    let err = config.validate(Some("/home/u")).unwrap_err();
    assert!(err.field.contains("longitude"), "expected longitude in error; got: {}", err.field);
}

#[test]
fn validate_rejects_relative_mount_path() {
    let mut config = config_with(vec![widget(
        BarSection::Right,
        WidgetKind::Disk(DiskConfig { mount: Some("relative/path".to_string()), format: None }),
    )]);
    let err = config.validate(Some("/home/u")).unwrap_err();
    assert!(err.field.contains("mount"), "expected mount in error; got: {}", err.field);
    assert_eq!(err.reason, ValidationReason::MountNotAbsolute);
}

#[test]
fn validate_rejects_threshold_out_of_range() {
    let mut config = config_with(vec![widget(
        BarSection::Right,
        WidgetKind::Cpu(CpuConfig { warn_threshold: Some(f32b(150.0)), crit_threshold: Some(f32b(200.0)) }),
    )]);
    let err = config.validate(Some("/home/u")).unwrap_err();
    assert!(err.field.contains("threshold"), "expected threshold in error; got: {}", err.field);
    assert_eq!(err.reason, ValidationReason::ThresholdRange);
}

#[test]
fn validate_accepts_valid_weather_config() {
    let mut config = config_with(vec![widget(
        BarSection::Right,
        WidgetKind::Weather(WeatherConfig {
            latitude: Some(f64b(51.5)),
            longitude: Some(f64b(-0.1)),
            units: None,
        }),
    )]);
    assert!(config.validate(Some("/home/u")).is_ok());
}

#[test]
fn validate_accepts_missing_latitude() {
    let mut config = config_with(vec![widget(
        BarSection::Right,
        WidgetKind::Weather(WeatherConfig::default()),
    )]);
    assert!(config.validate(Some("/home/u")).is_ok());
}

#[test]
fn validate_rejects_battery_inverted_thresholds_and_nan() {
    let mut config = config_with(vec![widget(
        BarSection::Right,
        WidgetKind::Battery(BatteryConfig {
            warn_threshold: Some(f32b(5.0)),
            crit_threshold: Some(f32b(20.0)),
            show_icon: None,
        }),
    )]);
    let err = config.validate(Some("/home/u")).unwrap_err();
    assert_eq!(err.field, "widgets[0].crit_threshold");
    let mut nan = config_with(vec![widget(
        BarSection::Right,
        WidgetKind::Cpu(CpuConfig { warn_threshold: Some(f32b(f32::NAN)), crit_threshold: None }),
    )]);
    let err = nan.validate(Some("/home/u")).unwrap_err();
    assert_eq!(err.field, "widgets[0].warn_threshold");
    assert_eq!(err.reason, ValidationReason::ThresholdRange);
}

#[test]
fn validate_expands_paths_and_reports_widget_index() {
    let mut config = config_with(vec![
        widget(BarSection::Left, WidgetKind::Disk(DiskConfig { mount: Some("~/data".to_string()), format: None })),
        widget(BarSection::Left, WidgetKind::Launcher(LauncherConfig::default())),
        widget(BarSection::Left, WidgetKind::Disk(DiskConfig { mount: Some("$HOME".to_string()), format: None })),
    ]);
    config.bar.css = Some("~/style.css".to_string());
    config.bar.theme = Some("dark".to_string());
    assert!(config.validate(Some("/home/u")).is_ok());
    assert_eq!(config.bar.css.as_deref(), Some("/home/u/style.css"));
    assert_eq!(config.bar.theme.as_deref(), Some("dark"));
    match &config.widgets[0].kind {
        WidgetKind::Disk(d) => assert_eq!(d.mount.as_deref(), Some("/home/u/data")),
        _ => panic!("expected disk"),
    }
    match &config.widgets[2].kind {
        WidgetKind::Disk(d) => assert_eq!(d.mount.as_deref(), Some("/home/u")),
        _ => panic!("expected disk"),
    }
    let mut w = widget(BarSection::Left, WidgetKind::Clock(ClockConfig::default()));
    w.interval = Some(0);
    let mut many = config_with(vec![
        widget(BarSection::Left, WidgetKind::Clock(ClockConfig::default())),
        widget(BarSection::Left, WidgetKind::Clock(ClockConfig::default())),
        widget(BarSection::Left, WidgetKind::Clock(ClockConfig::default())),
        widget(BarSection::Left, WidgetKind::Clock(ClockConfig::default())),
        widget(BarSection::Left, WidgetKind::Clock(ClockConfig::default())),
        widget(BarSection::Left, WidgetKind::Clock(ClockConfig::default())),
        widget(BarSection::Left, WidgetKind::Clock(ClockConfig::default())),
        widget(BarSection::Left, WidgetKind::Clock(ClockConfig::default())),
        widget(BarSection::Left, WidgetKind::Clock(ClockConfig::default())),
        widget(BarSection::Left, WidgetKind::Clock(ClockConfig::default())),
        widget(BarSection::Left, WidgetKind::Clock(ClockConfig::default())),
        widget(BarSection::Left, WidgetKind::Clock(ClockConfig::default())),
        w,
    ]);
    assert_eq!(many.validate(Some("")).unwrap_err().field, "widgets[12].interval");
}

#[test]
fn validate_zero_height_leaves_config_unchanged() {
    let mut config = config_with(vec![widget(
        BarSection::Left,
        WidgetKind::Disk(DiskConfig { mount: Some("~/x".to_string()), format: None }),
    )]);
    config.bar.height = 0;
    config.bar.css = Some("~/a.css".to_string());
    let before = config.clone();
    assert!(config.validate(Some("/h")).is_err());
    assert_eq!(config, before);
}

#[test]
fn expand_path_tilde_slash() {
    assert_eq!(expand_path("~/foo/bar", Some("/home/testuser")), "/home/testuser/foo/bar");
}

#[test]
fn expand_path_dollar_home_slash() {
    assert_eq!(expand_path("$HOME/foo/bar", Some("/home/testuser")), "/home/testuser/foo/bar");
}

#[test]
fn expand_path_bare_tilde() {
    assert_eq!(expand_path("~", Some("/home/testuser")), "/home/testuser");
    assert_eq!(expand_path("$HOME", Some("/home/testuser")), "/home/testuser");
}

#[test]
fn expand_path_unchanged_absolute() {
    assert_eq!(expand_path("/absolute/path", Some("/home/testuser")), "/absolute/path");
}

#[test]
fn expand_path_without_home_is_unchanged() {
    assert_eq!(expand_path("~/foo", None), "~/foo");
    assert_eq!(expand_path("$HOME", None), "$HOME");
    assert_eq!(expand_path("/abs", None), "/abs");
}

#[test]
fn expand_path_dollar_other_var_unchanged() {
    assert_eq!(expand_path("$XDG_DATA/foo", Some("/home/testuser")), "$XDG_DATA/foo");
    assert_eq!(expand_path("~user/foo", Some("/home/testuser")), "~user/foo");
    assert_eq!(expand_path("$HOMEDIR", Some("/home/testuser")), "$HOMEDIR");
}

#[test]
fn monitor_target_values_round_trip() {
    assert_eq!(
        monitor_target_from_value(&MonitorValue::Text("primary".to_string())),
        Ok(MonitorTarget::Primary)
    );
    assert_eq!(monitor_target_from_value(&MonitorValue::Unsigned(2)), Ok(MonitorTarget::Index(2)));
    assert_eq!(monitor_target_from_value(&MonitorValue::Signed(-1)), Err(MonitorValueError::OutOfRange));
    assert_eq!(
        monitor_target_from_value(&MonitorValue::Text("left".to_string())),
        Err(MonitorValueError::UnknownTarget("left".to_string()))
    );
    for m in [MonitorTarget::Primary, MonitorTarget::Index(0), MonitorTarget::Index(7)] {
        assert_eq!(monitor_target_from_value(&monitor_target_to_value(&m)), Ok(m));
    }
}

#[test]
fn default_impls_match_documented_defaults() {
    assert_eq!(BarPosition::default(), BarPosition::Top);
    assert_eq!(MonitorTarget::default(), MonitorTarget::Primary);
    assert_eq!(BarConfig::default_height(), 30);
    assert_eq!(BarConfig::default_widget_spacing(), 4);
}
