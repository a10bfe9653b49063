use parapet::providers::{
    brightness_reading, disk_report, find_mpris_player, is_battery_type, join_artists,
    media_info, memory_reading, network_rates, parse_battery_status, parse_playback_status,
    parse_sysfs_u32, resolve_interface, select_temp_sensor, sink_is_muted, sink_volume_text,
    weather_url, battery_from_supply, first_battery, no_battery, read_power_supplies, BatteryError,
    BatteryReading, BatteryTracker, DiskSample, PowerSupplyListing, SupplyFiles,
    MediaInfo, MediaObservation, MediaTracker,
};
use parapet::widget::{BatteryStatus, PlaybackStatus, TempUnit};

fn strings(v: &[&str]) -> Vec<String> {
    v.iter().map(|s| s.to_string()).collect()
}

#[test]
fn battery_reads_charging_state() {
    assert!(is_battery_type("Battery\n"));
    assert!(!is_battery_type("Mains\n"));
    assert_eq!(parse_sysfs_u32("75\n"), Some(75));
    assert_eq!(parse_battery_status(Some("Charging\n")), BatteryStatus::Charging);
}

#[test]
fn battery_reads_discharging_state() {
    assert_eq!(parse_sysfs_u32(" 42 "), Some(42));
    assert_eq!(parse_battery_status(Some("Discharging\n")), BatteryStatus::Discharging);
}

#[test]
fn battery_unknown_status_maps_to_unknown_variant() {
    assert_eq!(parse_battery_status(Some("Weird\n")), BatteryStatus::Unknown);
    assert_eq!(parse_battery_status(None), BatteryStatus::Unknown);
    assert_eq!(parse_battery_status(Some("Full")), BatteryStatus::Full);
    assert_eq!(parse_battery_status(Some("Not charging\n")), BatteryStatus::Full);
    assert_eq!(parse_sysfs_u32("abc"), None);
    assert_eq!(parse_sysfs_u32("4294967296"), None);
}

#[test]
fn brightness_no_backlight_returns_zero() {
    assert_eq!(brightness_reading(Some(50), Some(0)), None);
    assert_eq!(brightness_reading(None, Some(100)), None);
    assert_eq!(brightness_reading(Some(50), Some(100)), Some((50, 100)));
}

#[test]
fn playback_status_from_str_playing() {
    assert_eq!(parse_playback_status("Playing"), PlaybackStatus::Playing);
}

#[test]
fn playback_status_from_str_paused() {
    assert_eq!(parse_playback_status("Paused"), PlaybackStatus::Paused);
}

#[test]
fn playback_status_from_str_stopped() {
    assert_eq!(parse_playback_status("Stopped"), PlaybackStatus::Stopped);
}

#[test]
fn playback_status_from_str_unknown_maps_to_stopped() {
    assert_eq!(parse_playback_status("Buffering"), PlaybackStatus::Stopped);
    assert_eq!(parse_playback_status(""), PlaybackStatus::Stopped);
}

#[test]
fn media_widget_stopped_helper_returns_correct_variant() {
    let m = MediaInfo::stopped();
    assert_eq!(m.status, PlaybackStatus::Stopped);
    assert!(m.title.is_empty());
    assert!(m.artist.is_empty());
}

#[test]
fn media_player_lookup_and_metadata() {
    let names = strings(&["org.freedesktop.DBus", "org.mpris.MediaPlayer2.spotify", "org.mpris.MediaPlayer2.vlc"]);
    assert_eq!(find_mpris_player(&names).as_deref(), Some("org.mpris.MediaPlayer2.spotify"));
    assert_eq!(find_mpris_player(&strings(&["org.mpris.MediaPlayer2"])), None);
    assert_eq!(join_artists(&strings(&["A", "B", "C"])), "A, B, C");
    assert_eq!(join_artists(&strings(&[])), "");
    let m = media_info("Playing", true, false, Some("Song".to_string()), Some(strings(&["X", "Y"])));
    assert_eq!(m.status, PlaybackStatus::Playing);
    assert_eq!(m.title, "Song");
    assert_eq!(m.artist, "X, Y");
    assert!(m.can_go_next && !m.can_go_previous);
}

#[test]
fn media_tracker_keeps_last_report() {
    let mut t = MediaTracker::new();
    assert_eq!(t.observe(MediaObservation::PropertiesUnavailable), MediaInfo::stopped());
    let song = media_info("Paused", false, false, Some("T".to_string()), None);
    assert_eq!(t.observe(MediaObservation::Playing(song.clone())), song);
    assert_eq!(t.observe(MediaObservation::PropertiesUnavailable), song);
    assert_eq!(t.observe(MediaObservation::NoSession), MediaInfo::stopped());
    assert_eq!(t.observe(MediaObservation::PropertiesUnavailable), song);
    assert_eq!(t.observe(MediaObservation::NoPlayer), MediaInfo::stopped());
    assert_eq!(t.observe(MediaObservation::PropertiesUnavailable), MediaInfo::stopped());
}

#[test]
fn weather_url_contains_latitude_longitude() {
    let url = weather_url(&format!("{}", 51.5085f64), &format!("{}", -0.1257f64), TempUnit::Celsius);
    assert!(url.contains("51.5085"), "URL must contain latitude; got: {url}");
    assert!(url.contains("-0.1257"), "URL must contain longitude; got: {url}");
    assert!(url.contains("celsius"), "URL must contain temperature unit; got: {url}");
}

#[test]
fn weather_url_fahrenheit_unit() {
    let url = weather_url("40.71", "-74.01", TempUnit::Fahrenheit);
    assert!(url.contains("fahrenheit"), "URL must use fahrenheit unit; got: {url}");
}

#[test]
fn weather_url_contains_required_fields() {
    let url = weather_url("0", "0", TempUnit::Celsius);
    assert_eq!(
        url,
        "https://api.open-meteo.com/v1/forecast?latitude=0&longitude=0&current=temperature_2m,weather_code,wind_speed_10m,relative_humidity_2m&temperature_unit=celsius"
    );
}

#[test]
fn network_interface_resolution() {
    let avail = strings(&["lo", "wlan0", "eth0"]);
    assert_eq!(resolve_interface("auto", &avail), "wlan0");
    assert_eq!(resolve_interface("auto", &strings(&["lo"])), "lo");
    assert_eq!(resolve_interface("auto", &vec![]), "lo");
    assert_eq!(resolve_interface("eth1", &avail), "eth1");
    assert_eq!(network_rates(true, Some((5, 6))), (0, 0));
    assert_eq!(network_rates(false, Some((5, 6))), (5, 6));
    assert_eq!(network_rates(false, None), (0, 0));
}

#[test]
fn cpu_temp_sensor_preference() {
    let labels = strings(&["acpitz", "Core 0", "Package id 0"]);
    assert_eq!(select_temp_sensor(&labels, &vec![true, true, true]), Some(2));
    let labels = strings(&["acpitz", "k10temp Tctl", "CPU"]);
    assert_eq!(select_temp_sensor(&labels, &vec![true, true, true]), Some(2));
    let labels = strings(&["acpitz", "nvme"]);
    assert_eq!(select_temp_sensor(&labels, &vec![false, true]), Some(1));
    assert_eq!(select_temp_sensor(&labels, &vec![false, false]), None);
}

#[test]
fn disk_summary_filters_and_finds_mount() {
    let samples = vec![
        DiskSample { mount: "/".to_string(), mount_is_utf8: true, total_space: 100, available_space: 40 },
        DiskSample { mount: "/proc".to_string(), mount_is_utf8: true, total_space: 0, available_space: 0 },
        DiskSample { mount: "/home".to_string(), mount_is_utf8: true, total_space: 50, available_space: 60 },
    ];
    let r = disk_report(&samples, "/home");
    assert_eq!((r.used_bytes, r.total_bytes), (0, 50));
    assert_eq!(r.all_disks.len(), 2);
    assert_eq!(r.all_disks[0].mount, "/");
    assert_eq!(r.all_disks[0].used_bytes, 60);
    let r = disk_report(&samples, "/missing");
    assert_eq!((r.used_bytes, r.total_bytes), (0, 0));
}

#[test]
fn memory_zero_total_is_refused() {
    assert!(memory_reading(1, 0, 0, 0).is_none());
    let m = memory_reading(1, 2, 3, 4).unwrap();
    assert_eq!((m.used_bytes, m.total_bytes, m.swap_used, m.swap_total), (1, 2, 3, 4));
}

#[test]
fn plain_pactl_output_volume_and_mute() {
    assert_eq!(
        sink_volume_text("Volume: front-left: 45875 /  70% / -8.66 dB").as_deref(),
        Some("70")
    );
    assert_eq!(sink_volume_text("no slash here"), None);
    assert!(sink_is_muted("Mute: YES"));
    assert!(!sink_is_muted("Mute: no"));
}

#[test]
fn battery_no_battery_returns_none_charge() {
    assert_eq!(battery_from_supply(Some("Mains\n"), Some("100\n"), Some("Full\n")), None);
    assert_eq!(battery_from_supply(None, None, None), None);
    assert_eq!(
        battery_from_supply(Some("Battery\n"), Some("75\n"), Some("Charging\n")),
        Some(BatteryReading { capacity: Some(75), status: BatteryStatus::Charging })
    );
    assert_eq!(
        battery_from_supply(Some("Battery"), None, None),
        Some(BatteryReading { capacity: None, status: BatteryStatus::Unknown })
    );
    let ac = supply(Some("Mains\n"), Some("100\n"), Some("Full\n"));
    assert_eq!(first_battery(&vec![ac.clone()]), no_battery());
    assert_eq!(read_power_supplies(&PowerSupplyListing::Entries(vec![ac])), Ok(no_battery()));
    assert_eq!(read_power_supplies(&PowerSupplyListing::Entries(Vec::new())), Ok(no_battery()));
    assert_eq!(read_power_supplies(&PowerSupplyListing::Missing), Ok(no_battery()));
}

fn supply(t: Option<&str>, c: Option<&str>, s: Option<&str>) -> SupplyFiles {
    SupplyFiles {
        type_text: t.map(str::to_string),
        capacity_text: c.map(str::to_string),
        status_text: s.map(str::to_string),
    }
}

#[test]
fn battery_first_battery_entry_wins() {
    let entries = vec![
        supply(Some("Mains\n"), None, None),
        supply(Some("Battery\n"), Some("42\n"), Some("Discharging\n")),
        supply(Some("Battery\n"), Some("99\n"), Some("Full\n")),
    ];
    assert_eq!(
        first_battery(&entries),
        BatteryReading { capacity: Some(42), status: BatteryStatus::Discharging }
    );
}

#[test]
fn battery_unreadable_directory_is_an_error() {
    let mut t = BatteryTracker::new();
    let listing = PowerSupplyListing::Entries(vec![supply(Some("Battery"), Some("40"), Some("Discharging"))]);
    let b = BatteryReading { capacity: Some(40), status: BatteryStatus::Discharging };
    assert_eq!(t.observe(&listing), Ok(b));
    assert_eq!(t.observe(&PowerSupplyListing::Unreadable), Err(BatteryError::DirectoryUnreadable));
    assert_eq!(t.last, Some(b));
    assert_eq!(BatteryTracker::new().observe(&PowerSupplyListing::Unreadable), Err(BatteryError::DirectoryUnreadable));
}
