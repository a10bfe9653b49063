use parapet::volume::{is_sink_change_event, volume_pct_text};
use parapet::volume::parse_mute;

const SINK_INFO_FIXTURE: &str = "Sink #0\n\
    \tState: RUNNING\n\
    \tName: alsa_output.pci-0000_00_1f.3.analog-stereo\n\
    \tVolume: front-left: 45875 /  70% / -8.66 dB   front-right: 45875 /  70% / -8.66 dB\n\
    \tBalance: 0.00\n\
    \tMute: no\n";

const SINK_INFO_MUTED: &str = "Sink #0\n\
    \tVolume: front-left: 0 /   0% / -inf dB\n\
    \tMute: yes\n";

const SINK_INFO_NO_VOLUME_LINE: &str = "Sink #0\n\
    \tMute: no\n";

#[test]
fn parse_mute_false_on_unmuted_sink() {
    assert!(!parse_mute(SINK_INFO_FIXTURE));
}

#[test]
fn parse_mute_true_on_muted_sink() {
    assert!(parse_mute(SINK_INFO_MUTED));
}

#[test]
fn parse_mute_false_when_line_absent() {
    assert!(!parse_mute(SINK_INFO_NO_VOLUME_LINE));
}

#[test]
fn parse_mute_reads_only_first_mute_line() {
    assert!(!parse_mute("Mute: no\nMute: yes\n"));
}

#[test]
fn parse_mute_is_case_insensitive() {
    assert!(parse_mute("  Mute: YES\r\n"));
}

#[test]
fn parse_mute_without_any_line_is_false() {
    assert!(!parse_mute(""));
    assert!(!parse_mute("Volume: yes"));
}

#[test]
fn parse_volume_pct_text_extracts_field() {
    let fixture = "Sink #0\n\tState: RUNNING\n\tVolume: front-left: 45875 /  70% / -8.66 dB   front-right: 45875 /  70% / -8.66 dB\n\tMute: no\n";
    assert_eq!(volume_pct_text(fixture).as_deref(), Some("70"));
    assert_eq!(volume_pct_text("Sink #0\n\tMute: no\n"), None);
    assert_eq!(volume_pct_text("Sink #0\n\tVolume: front-left: 0 /   0% / -inf dB\n").as_deref(), Some("0"));
    assert!(is_sink_change_event("Event 'change' on sink #0"));
    assert!(!is_sink_change_event("Event 'new' on sink #0"));
    assert!(!is_sink_change_event("Event 'change' on source #1"));
}

#[test]
fn parse_volume_pct_extracts_from_fixture() {
    let text = volume_pct_text(SINK_INFO_FIXTURE).expect("volume field");
    assert_eq!(text.parse::<f32>().ok(), Some(70.0));
}

#[test]
fn parse_volume_pct_returns_zero_when_muted() {
    let text = volume_pct_text(SINK_INFO_MUTED).expect("volume field");
    assert_eq!(text.parse::<f32>().ok(), Some(0.0));
}

#[test]
fn parse_volume_pct_none_when_volume_line_absent() {
    assert_eq!(volume_pct_text(SINK_INFO_NO_VOLUME_LINE), None);
}
