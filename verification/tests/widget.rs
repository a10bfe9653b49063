use parapet::widget::{BatteryStatus, PlaybackStatus, TempUnit, WIDGET_API_VERSION};

#[test]
fn widget_api_version_non_empty() {
    assert!(!WIDGET_API_VERSION.is_empty());
}

#[test]
fn battery_status_eq() {
    assert_eq!(BatteryStatus::Charging, BatteryStatus::Charging);
    assert_ne!(BatteryStatus::Charging, BatteryStatus::Discharging);
    assert_ne!(BatteryStatus::Full, BatteryStatus::Unknown);
}

#[test]
fn temp_unit_eq() {
    assert_eq!(TempUnit::Celsius, TempUnit::Celsius);
    assert_ne!(TempUnit::Celsius, TempUnit::Fahrenheit);
}

#[test]
fn playback_status_eq() {
    assert_eq!(PlaybackStatus::Playing, PlaybackStatus::Playing);
    assert_ne!(PlaybackStatus::Playing, PlaybackStatus::Paused);
    assert_ne!(PlaybackStatus::Paused, PlaybackStatus::Stopped);
}

#[test]
fn playback_status_clone() {
    let s = PlaybackStatus::Paused;
    let c = s;
    assert_eq!(s, c);
}
