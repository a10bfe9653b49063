use parapet::config::F32Bits;
use parapet::labels::{
    battery_icon, battery_level, cpu_level, free_bytes, media_label, temp_unit_symbol, truncate,
    usage_mode, volume_icon, wmo_icon, LevelClass, UsageMode,
};
use parapet::widget::{BatteryStatus, PlaybackStatus, TempUnit};

fn f(v: f32) -> F32Bits {
    F32Bits(v.to_bits())
}

#[test]
fn truncate_cuts_with_ellipsis() {
    assert_eq!(truncate("hello", 10), "hello");
    assert_eq!(truncate("hello", 5), "hello");
    assert_eq!(truncate("hello world", 5), "hell\u{2026}");
    assert_eq!(truncate("", 0), "");
    assert_eq!(truncate("ab", 1), "\u{2026}");
}

#[test]
fn media_label_by_status() {
    assert_eq!(media_label("Song", "Artist", PlaybackStatus::Stopped), "");
    assert_eq!(media_label("Song", "Artist", PlaybackStatus::Paused), "\u{23f8} Song");
    assert_eq!(
        media_label("Song", "Artist", PlaybackStatus::Playing),
        "\u{25b6} Song  \u{2014}  Artist"
    );
    let long = "x".repeat(40);
    let label = media_label(&long, "a", PlaybackStatus::Paused);
    assert_eq!(label.chars().count(), 2 + 30);
    assert!(label.ends_with('\u{2026}'));
}

#[test]
fn wmo_icons() {
    assert_eq!(wmo_icon(0), '\u{2600}');
    assert_eq!(wmo_icon(2), '\u{26c5}');
    assert_eq!(wmo_icon(48), '\u{1f32b}');
    assert_eq!(wmo_icon(55), '\u{1f326}');
    assert_eq!(wmo_icon(81), '\u{1f327}');
    assert_eq!(wmo_icon(75), '\u{2744}');
    assert_eq!(wmo_icon(99), '\u{26c8}');
    assert_eq!(wmo_icon(4), '\u{1f321}');
    assert_eq!(temp_unit_symbol(TempUnit::Fahrenheit), 'F');
    assert_eq!(battery_icon(BatteryStatus::Charging), '\u{26a1}');
    assert_eq!(volume_icon(true), '\u{1f507}');
}

#[test]
fn threshold_levels() {
    assert_eq!(cpu_level(f(95.0), f(70.0), f(90.0)), LevelClass::Critical);
    assert_eq!(cpu_level(f(90.0), f(70.0), f(90.0)), LevelClass::Critical);
    assert_eq!(cpu_level(f(75.0), f(70.0), f(90.0)), LevelClass::Warning);
    assert_eq!(cpu_level(f(10.0), f(70.0), f(90.0)), LevelClass::Normal);
    assert_eq!(cpu_level(f(f32::NAN), f(70.0), f(90.0)), LevelClass::Normal);
    assert_eq!(battery_level(f(10.0), f(30.0), f(15.0)), LevelClass::Critical);
    assert_eq!(battery_level(f(30.0), f(30.0), f(15.0)), LevelClass::Warning);
    assert_eq!(battery_level(f(80.0), f(30.0), f(15.0)), LevelClass::Normal);
    assert_eq!(battery_level(f(-0.0), f(30.0), f(0.0)), LevelClass::Critical);
}

#[test]
fn usage_modes() {
    assert_eq!(usage_mode(&Some("percent".to_string())), UsageMode::Percent);
    assert_eq!(usage_mode(&Some("free".to_string())), UsageMode::Free);
    assert_eq!(usage_mode(&Some("used".to_string())), UsageMode::Used);
    assert_eq!(usage_mode(&None), UsageMode::Used);
    assert_eq!(free_bytes(10, 3), 7);
    assert_eq!(free_bytes(3, 10), 0);
}

#[test]
fn truncate_to_zero_is_empty() {
    assert_eq!(truncate("a", 0), "");
    assert_eq!(truncate("hello", 0), "");
}
