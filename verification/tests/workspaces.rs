use parapet::workspaces::{parse_xprop_cardinal, parse_xprop_utf8_list};

#[test]
fn xprop_cardinal_reads_value() {
    assert_eq!(parse_xprop_cardinal("_NET_NUMBER_OF_DESKTOPS(CARDINAL) = 4"), Some(4));
    assert_eq!(parse_xprop_cardinal("_NET_CURRENT_DESKTOP(CARDINAL) =  12 "), Some(12));
}

#[test]
fn xprop_cardinal_rejects_missing_separator_or_bad_number() {
    assert_eq!(parse_xprop_cardinal("_NET_NUMBER_OF_DESKTOPS(CARDINAL)"), None);
    assert_eq!(parse_xprop_cardinal("X(CARDINAL) = -1"), None);
    assert_eq!(parse_xprop_cardinal("X(CARDINAL) = "), None);
    assert_eq!(parse_xprop_cardinal("X(CARDINAL) = +7"), Some(7));
    assert_eq!(parse_xprop_cardinal("X(CARDINAL) = 99999999999999999999999"), None);
}

#[test]
fn xprop_utf8_list_reads_names() {
    assert_eq!(
        parse_xprop_utf8_list("_NET_DESKTOP_NAMES(UTF8_STRING) = \"Home\", \"Work\", \"\""),
        vec!["Home".to_string(), "Work".to_string()]
    );
}

#[test]
fn xprop_utf8_list_without_separator_is_empty() {
    assert!(parse_xprop_utf8_list("_NET_DESKTOP_NAMES(UTF8_STRING)").is_empty());
}
