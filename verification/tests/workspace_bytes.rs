use parapet::workspaces::{parse_utf8_names, read_flat_workspace_state};
use parapet::workspaces::{
    parse_property_cardinal, parse_property_names, read_workspace_state, settle_workspace_state,
    workspace_buttons, workspace_label, WorkspaceState,
};

#[test]
fn cardinal_single_workspace() {
    assert_eq!(parse_property_cardinal(&1u32.to_ne_bytes()), Some(1));
}

#[test]
fn cardinal_ten_workspaces() {
    assert_eq!(parse_property_cardinal(&10u32.to_ne_bytes()), Some(10));
}

#[test]
fn cardinal_empty_slice_returns_none() {
    assert_eq!(parse_property_cardinal(&[]), None);
}

#[test]
fn cardinal_truncated_three_bytes_returns_none() {
    assert_eq!(parse_property_cardinal(&[1, 0, 0]), None);
}

#[test]
fn names_three_workspaces() {
    assert_eq!(parse_property_names(b"Home\0Work\0Code\0"), vec!["Home", "Work", "Code"]);
}

#[test]
fn names_utf8_preserved() {
    let input = "Heim\0B\u{00FC}ro\0".as_bytes();
    assert_eq!(parse_property_names(input), vec!["Heim", "B\u{00FC}ro"]);
}

#[test]
fn names_empty_bytes_returns_empty_vec() {
    assert_eq!(parse_property_names(b""), Vec::<String>::new());
}

#[test]
fn names_single_null_filters_out() {
    assert_eq!(parse_property_names(b"\0"), Vec::<String>::new());
}

#[test]
fn names_consecutive_nulls_filtered() {
    assert_eq!(parse_property_names(b"A\0\0B\0"), vec!["A", "B"]);
    assert_eq!(parse_property_names(b"\0last"), vec!["last"]);
    assert_eq!(parse_property_names(b"bad\xff\0"), vec!["bad\u{FFFD}"]);
}

#[test]
fn workspace_state_defaults_and_clamp() {
    let s = read_workspace_state(None, None, None);
    assert_eq!(s, WorkspaceState { count: 1, current: 0, names: vec![] });
    let four = 4u32.to_ne_bytes();
    let nine = 9u32.to_ne_bytes();
    let two = 2u32.to_ne_bytes();
    let s = read_workspace_state(Some(&four), Some(&nine), Some(b"a\0b\0"));
    assert_eq!(s.count, 4);
    assert_eq!(s.current, 0);
    assert_eq!(s.names, vec!["a", "b"]);
    let s = read_workspace_state(Some(&four), Some(&two), None);
    assert_eq!((s.count, s.current), (4, 2));
    let s = settle_workspace_state(None, Some(0), vec![]);
    assert_eq!((s.count, s.current), (1, 0));
    let s = settle_workspace_state(Some(0), Some(0), vec![]);
    assert_eq!((s.count, s.current), (0, 0));
}

#[test]
fn workspace_labels_collapse_default_names() {
    assert_eq!(workspace_label("Workspace 1", 0), "1");
    assert_eq!(workspace_label("WORKSPACE 3", 2), "3");
    assert_eq!(workspace_label("Workspace 3", 0), "Workspace 3");
    assert_eq!(workspace_label("", 4), "5");
    assert_eq!(workspace_label("Code", 1), "Code");
    let state = WorkspaceState {
        count: 3,
        current: 1,
        names: vec!["Workspace 1".to_string(), "Web".to_string()],
    };
    let buttons = workspace_buttons(&state);
    let labels: Vec<&str> = buttons.iter().map(|b| b.label.as_str()).collect();
    assert_eq!(labels, vec!["1", "Web", "3"]);
    let active: Vec<bool> = buttons.iter().map(|b| b.active).collect();
    assert_eq!(active, vec![false, true, false]);
}

#[test]
fn flat_switcher_names_are_trimmed() {
    assert_eq!(parse_utf8_names(b" Home \0\0Work\0  \0"), vec!["Home", "Work"]);
    assert_eq!(parse_utf8_names(b""), Vec::<String>::new());
    let nine = 9u32.to_ne_bytes();
    let s = read_flat_workspace_state(Some(&[1, 0]), Some(&nine), Some(b"a\0b"));
    assert_eq!(s.count, 1);
    assert_eq!(s.current, 9);
    assert_eq!(s.names, vec!["a", "b"]);
}

#[test]
fn desktop_names_round_trip() {
    let names = vec!["main".to_string(), "café".to_string(), "日本".to_string()];
    let mut bytes = Vec::new();
    for n in &names {
        bytes.extend_from_slice(n.as_bytes());
        bytes.push(0);
    }
    assert_eq!(parse_property_names(&bytes), names);
    assert!(parse_property_names(b"").is_empty());
}

#[test]
fn desktop_names_never_empty_or_nul() {
    let names = parse_property_names(b"\xff\0\0ab\xc3\0\0");
    assert_eq!(names, vec!["\u{FFFD}".to_string(), "ab\u{FFFD}".to_string()]);
    for n in &names {
        assert!(!n.is_empty() && !n.contains('\0'));
    }
}
