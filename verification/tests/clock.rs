use parapet::clock::clock_display;

#[test]
fn clock_formats_epoch_in_utc() {
    assert_eq!(clock_display(0, 0, 0, "%H:%M:%S"), Some("00:00:00".to_string()));
    assert_eq!(clock_display(1431648000, 0, 0, "%Y-%m-%d %H:%M"), Some("2015-05-15 00:00".to_string()));
}

#[test]
fn clock_applies_local_offset() {
    assert_eq!(clock_display(0, 0, 3600, "%H:%M:%S"), Some("01:00:00".to_string()));
    assert_eq!(clock_display(0, 0, -1800, "%H:%M"), Some("23:30".to_string()));
}

#[test]
fn clock_refuses_bad_offset_and_format() {
    assert_eq!(clock_display(0, 0, 86_400, "%H"), None);
    assert_eq!(clock_display(0, 0, 0, "%Q"), None);
}
