use parapet::launcher::rank_by_name;
use parapet::config::LauncherConfig;
use parapet::launcher::{
    combine_scores, default_order, desktop_id_stem, highlight_markup, launcher_settings,
    partition_apps, rank_matches, score_app, AppSearchData,
};

fn app(name: &str, generic: &str, keywords: &str, description: &str) -> AppSearchData {
    AppSearchData {
        name: name.to_string(),
        generic_name: generic.to_string(),
        keywords: keywords.to_string(),
        description: description.to_string(),
    }
}

fn strings(v: &[&str]) -> Vec<String> {
    v.iter().map(|s| s.to_string()).collect()
}

#[test]
fn desktop_id_stem_logic() {
    assert_eq!(desktop_id_stem(Some("org.mozilla.firefox.desktop")), "org.mozilla.firefox");
    assert_eq!(desktop_id_stem(Some("firefox-nightly")), "firefox-nightly");
    assert_eq!(desktop_id_stem(Some(".desktop")), "");
    assert_eq!(desktop_id_stem(None), "");
}

#[test]
fn combine_scores_weights_fields() {
    // Name ×3 beats the alternatives.
    assert_eq!(combine_scores(Some((10, vec![0, 1])), Some(12), None, Some(5)), Some((30, vec![0, 1])));
    // A better alternative field wins the score but keeps the name indices.
    assert_eq!(combine_scores(Some((1, vec![2])), Some(20), None, None), Some((40, vec![2])));
    // Name does not match: best alternative with no highlights.
    assert_eq!(combine_scores(None, None, Some(7), Some(9)), Some((14, vec![])));
    assert_eq!(combine_scores(None, None, None, Some(9)), Some((9, vec![])));
    // Nothing matches.
    assert_eq!(combine_scores(None, None, None, None), None);
}

#[test]
fn score_app_empty_query_scores_zero() {
    let a = app("Firefox", "Web Browser", "internet web", "Browse the web");
    assert_eq!(score_app(&a, ""), Some((0, vec![])));
}

#[test]
fn score_app_matches_name_with_highlights() {
    let a = app("Firefox", "", "", "");
    let (score, idx) = score_app(&a, "ffx").expect("matches");
    assert!(score > 0);
    assert_eq!(idx.len(), 3);
    assert_eq!(idx[0], 0);
    assert!(score_app(&a, "zzz").is_none());
    // Only the description matches: listed without highlights.
    let b = app("Terminal", "", "", "shell access");
    let (_, idx) = score_app(&b, "shell").expect("description matches");
    assert!(idx.is_empty());
}

#[test]
fn rank_matches_orders_best_first_and_caps() {
    let corpus = vec![
        app("Gedit", "Text Editor", "", ""),
        app("Firefox", "Web Browser", "", ""),
        app("Files", "File Manager", "", ""),
        app("Calculator", "", "", ""),
    ];
    let ranked = rank_matches(&corpus, "fi", 10);
    assert!(ranked.len() >= 2);
    for w in ranked.windows(2) {
        assert!(w[0].score > w[1].score || (w[0].score == w[1].score && w[0].index < w[1].index));
    }
    for r in &ranked {
        let (s, idx) = score_app(&corpus[r.index], "fi").unwrap();
        assert_eq!((s, idx), (r.score, r.indices.clone()));
    }
    assert!(ranked.iter().all(|r| r.index != 3));
    let capped = rank_matches(&corpus, "fi", 1);
    assert_eq!(capped.len(), 1);
    assert_eq!(capped[0], ranked[0]);
    assert!(rank_matches(&corpus, "fi", 0).is_empty());
}

#[test]
fn rank_matches_empty_query_keeps_corpus_order() {
    let corpus = vec![app("B", "", "", ""), app("A", "", "", ""), app("C", "", "", "")];
    let ranked = rank_matches(&corpus, "", 10);
    let order: Vec<usize> = ranked.iter().map(|r| r.index).collect();
    assert_eq!(order, vec![0, 1, 2]);
}

#[test]
fn partition_apps_pinned_first_in_pinned_order() {
    let stems = strings(&["firefox", "gedit", "nautilus", "firefox"]);
    let pinned = strings(&["nautilus", "missing", "firefox"]);
    let (p, rest) = partition_apps(&stems, &pinned);
    assert_eq!(p, vec![2, 0]);
    assert_eq!(rest, vec![1]);
    assert_eq!(default_order(&stems, &pinned, 10), vec![2, 0, 1]);
    assert_eq!(default_order(&stems, &pinned, 2), vec![2, 0]);
    assert_eq!(default_order(&stems, &pinned, 0), Vec::<usize>::new());
    assert_eq!(default_order(&stems, &vec![], 3), vec![0, 1, 2]);
}

#[test]
fn highlight_markup_wraps_matched_characters() {
    let escaped = strings(&["F", "i", "&amp;", "x"]);
    assert_eq!(highlight_markup(&escaped, &vec![0, 2]), "<b>F</b>i<b>&amp;</b>x");
    assert_eq!(highlight_markup(&escaped, &vec![]), "Fi&amp;x");
}

#[test]
fn launcher_settings_apply_defaults() {
    let s = launcher_settings(&LauncherConfig::default());
    assert_eq!(s.max_results, 10);
    assert_eq!(s.button_label, "Apps");
    assert_eq!(s.popup_width, 280);
    assert_eq!(s.popup_min_height, 200);
    assert!(s.pinned.is_empty());
    assert_eq!(s.hover_delay_ms, 150);
    let c = LauncherConfig {
        max_results: Some(15),
        button_label: Some("Run".to_string()),
        popup_width: Some(300),
        popup_min_height: Some(100),
        pinned: strings(&["firefox"]),
        hover_delay_ms: Some(0),
    };
    let s = launcher_settings(&c);
    assert_eq!(s.max_results, 15);
    assert_eq!(s.button_label, "Run");
    assert_eq!(s.popup_width, 300);
    assert_eq!(s.popup_min_height, 100);
    assert_eq!(s.pinned, strings(&["firefox"]));
    assert_eq!(s.hover_delay_ms, 0);
}

#[test]
fn rank_by_name_matches_names_only() {
    let names = strings(&["Gedit", "Firefox", "Files"]);
    let all = rank_by_name(&names, "", 2);
    assert_eq!(all.iter().map(|r| r.index).collect::<Vec<_>>(), vec![0, 1]);
    assert!(all.iter().all(|r| r.score == 0 && r.indices.is_empty()));
    let hits = rank_by_name(&names, "fi", 10);
    assert!(!hits.is_empty());
    assert!(hits.iter().all(|r| r.index != 0));
    for w in hits.windows(2) {
        assert!(w[0].score > w[1].score || (w[0].score == w[1].score && w[0].index < w[1].index));
    }
}

#[test]
fn score_app_weights_fields() {
    let data = parapet::launcher::AppSearchData {
        name: "Firefox".to_string(),
        generic_name: "Web Browser".to_string(),
        keywords: String::new(),
        description: String::new(),
    };
    let (by_name, idx) = parapet::launcher::score_app(&data, "fire").expect("name matches");
    assert!(!idx.is_empty());
    let (by_generic, none) = parapet::launcher::score_app(&data, "browser").expect("generic name matches");
    assert!(none.is_empty());
    assert!(by_name > 0 && by_generic > 0);
    assert_eq!(by_name % 3, 0);
    assert_eq!(by_generic % 2, 0);
    assert!(parapet::launcher::score_app(&data, "zzzq").is_none());
}
