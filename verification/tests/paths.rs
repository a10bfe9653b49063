use parapet::paths::{
    active_css_path, cli_action, config_path, effective_theme, is_change_event, join_path,
    pick_theme_variant, reload_due, resolve_theme_path, theme_arg, theme_variant_candidate, CliAction,
    FsEventKind,
};

fn strings(v: &[&str]) -> Vec<String> {
    v.iter().map(|s| s.to_string()).collect()
}

#[test]
fn resolve_theme_path_correct() {
    assert_eq!(
        resolve_theme_path("dark", Some("/home/testuser"), "frames"),
        "/home/testuser/.config/frames/themes/dark.css"
    );
    assert_eq!(
        resolve_theme_path("dark", Some("/home/testuser/"), "parapet"),
        "/home/testuser/.config/parapet/themes/dark.css"
    );
    assert_eq!(resolve_theme_path("dark", None, "frames"), "");
}

#[test]
fn resolve_theme_path_rejects_traversal_slash() {
    assert!(resolve_theme_path("../evil", Some("/home/u"), "frames").is_empty());
}

#[test]
fn resolve_theme_path_rejects_traversal_dotdot() {
    assert!(resolve_theme_path("foo..bar", Some("/home/u"), "frames").is_empty());
}

#[test]
fn join_path_separators() {
    assert_eq!(join_path("", "a"), "a");
    assert_eq!(join_path("/", "a"), "/a");
    assert_eq!(join_path("/x", "a"), "/x/a");
}

#[test]
fn theme_variants_and_active_css() {
    assert_eq!(theme_variant_candidate("nord", true), "nord-dark");
    assert_eq!(theme_variant_candidate("nord", false), "nord-light");
    assert_eq!(pick_theme_variant("nord", "nord-dark", true), "nord-dark");
    assert_eq!(pick_theme_variant("nord", "nord-dark", false), "nord");
    assert_eq!(effective_theme(Some("cli"), &Some("cfg".to_string())).as_deref(), Some("cli"));
    assert_eq!(effective_theme(None, &Some("cfg".to_string())).as_deref(), Some("cfg"));
    assert_eq!(effective_theme(None, &None), None);
    let css = Some("/x/y.css".to_string());
    assert_eq!(
        active_css_path(Some("nord"), &css, Some("/h"), "parapet").as_deref(),
        Some("/h/.config/parapet/themes/nord.css")
    );
    assert_eq!(active_css_path(Some("a/b"), &css, Some("/h"), "parapet"), None);
    assert_eq!(active_css_path(None, &css, Some("/h"), "parapet").as_deref(), Some("/x/y.css"));
    assert_eq!(active_css_path(None, &None, Some("/h"), "parapet"), None);
}

#[test]
fn config_path_default_and_override() {
    assert_eq!(config_path(Some("/etc/bar.toml"), Some("/h"), "parapet"), "/etc/bar.toml");
    assert_eq!(config_path(None, Some("/h"), "parapet"), "/h/.config/parapet/config.toml");
    assert_eq!(config_path(None, None, "frames"), "/root/.config/frames/config.toml");
}

#[test]
fn command_line_actions() {
    assert_eq!(cli_action(&strings(&["--theme", "x", "--init-config"])), CliAction::InitConfig);
    assert_eq!(cli_action(&strings(&["--dump-schema"])), CliAction::DumpSchema);
    assert_eq!(
        cli_action(&strings(&["-v", "--theme", "nord", "--theme", "other"])),
        CliAction::Run { theme: Some("nord".to_string()) }
    );
    assert_eq!(cli_action(&strings(&["--theme"])), CliAction::Run { theme: None });
    assert_eq!(theme_arg(&strings(&[])), None);
}

#[test]
fn reload_event_kinds() {
    assert!(is_change_event(FsEventKind::Modify));
    assert!(is_change_event(FsEventKind::Create));
    assert!(is_change_event(FsEventKind::Remove));
    assert!(!is_change_event(FsEventKind::Access));
    assert!(!is_change_event(FsEventKind::Any));
    assert!(!is_change_event(FsEventKind::Other));
}

#[test]
fn reload_is_debounced() {
    assert!(!reload_due(false, 10_000));
    assert!(!reload_due(true, 499));
    assert!(reload_due(true, 500));
    assert!(reload_due(true, 2_000));
}
