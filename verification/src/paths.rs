//! File locations (the config file, named CSS themes) and the command line.

use vstd::prelude::*;
use crate::text::{chars_eq, chars_of, concat_from, contains, contains_exec, string_of, views};

verus! {

// ── Paths ─────────────────────────────────────────────────────────────────────

/// `PathBuf::from(base).join(rel)` for a relative `rel`: a `/` goes between
/// them unless `base` is empty or already ends with one.
pub open spec fn joined_path(base: Seq<char>, rel: Seq<char>) -> Seq<char> {
    if base.len() == 0 {
        rel
    } else if base.last() == '/' {
        base + rel
    } else {
        base + seq!['/'] + rel
    }
}

/// Join a relative path onto `base`.
pub fn join_path(base: &str, rel: &str) -> (r: String)
    ensures
        r@ == joined_path(base@, rel@),
{
    let b = chars_of(base);
    let r = chars_of(rel);
    assert(r@.skip(0) =~= r@);
    if b.len() == 0 {
        string_of(r.as_slice())
    } else if b[b.len() - 1] == '/' {
        string_of(concat_from(&b, &r, 0).as_slice())
    } else {
        let slash = vec!['/'];
        let bs = concat_from(&b, &slash, 0);
        assert(slash@.skip(0) =~= slash@);
        string_of(concat_from(&bs, &r, 0).as_slice())
    }
}

/// Where a named theme lives: `<home>/.config/<app>/themes/<name>.css`; the
/// empty path when the name contains `/` or `..` (no escaping the theme
/// directory) or when the home directory is unknown.
pub open spec fn theme_path_of(name: Seq<char>, home: Option<Seq<char>>, app: Seq<char>) -> Seq<char> {
    if contains(name, seq!['/']) || contains(name, seq!['.', '.']) {
        Seq::empty()
    } else {
        match home {
            None => Seq::empty(),
            Some(h) => joined_path(h, ".config/"@ + app + "/themes/"@ + name + ".css"@),
        }
    }
}

/// The view of an optional `&str`.
pub open spec fn opt_str(o: Option<&str>) -> Option<Seq<char>> {
    match o {
        Some(s) => Some(s@),
        None => None,
    }
}

/// Resolve a named theme to its CSS file under `app`'s config directory;
/// the empty string when the name is refused or `home` is unknown.
pub fn resolve_theme_path(name: &str, home: Option<&str>, app: &str) -> (r: String)
    ensures
        r@ == theme_path_of(name@, opt_str(home), app@),
{
    let n = chars_of(name);
    let slash = vec!['/'];
    let dots = vec!['.', '.'];
    assert(slash@ == seq!['/']);
    assert(dots@ == seq!['.', '.']);
    if contains_exec(&n, &slash) || contains_exec(&n, &dots) {
        return String::new();
    }
    match home {
        None => String::new(),
        Some(h) => {
            let a = concat_from(&chars_of(".config/"), &chars_of(app), 0);
            let b = concat_from(&a, &chars_of("/themes/"), 0);
            let c = concat_from(&b, &n, 0);
            let d = concat_from(&c, &chars_of(".css"), 0);
            assert(d@ =~= ".config/"@ + app@ + "/themes/"@ + name@ + ".css"@);
            let rel = string_of(d.as_slice());
            join_path(h, rel.as_str())
        },
    }
}

/// The dark or light variant name tried for a theme.
pub open spec fn variant_of(name: Seq<char>, prefer_dark: bool) -> Seq<char> {
    if prefer_dark {
        name + "-dark"@
    } else {
        name + "-light"@
    }
}

/// The variant of a theme matching the desktop's dark preference:
/// `<name>-dark` or `<name>-light`.
pub fn theme_variant_candidate(name: &str, prefer_dark: bool) -> (r: String)
    ensures
        r@ == variant_of(name@, prefer_dark),
{
    let n = chars_of(name);
    let suffix = if prefer_dark {
        chars_of("-dark")
    } else {
        chars_of("-light")
    };
    let r = concat_from(&n, &suffix, 0);
    assert(suffix@.skip(0) =~= suffix@);
    string_of(r.as_slice())
}

/// The theme actually used: the variant when its file exists (the caller
/// checks the variant's non-empty path), the plain name otherwise.
pub fn pick_theme_variant(name: &str, candidate: &str, candidate_exists: bool) -> (r: String)
    ensures
        r@ == if candidate_exists {
            candidate@
        } else {
            name@
        },
{
    if candidate_exists {
        string_of(chars_of(candidate).as_slice())
    } else {
        string_of(chars_of(name).as_slice())
    }
}

/// The theme name in force: the command-line override, else the config's.
pub fn effective_theme(cli_theme: Option<&str>, config_theme: &Option<String>) -> (r: Option<String>)
    ensures
        match (r, cli_theme, config_theme) {
            (Some(x), Some(c), _) => x@ == c@,
            (Some(x), None, Some(t)) => x@ == t@,
            (None, None, None) => true,
            _ => false,
        },
{
    match cli_theme {
        Some(c) => Some(string_of(chars_of(c).as_slice())),
        None => match config_theme {
            Some(t) => Some(t.clone()),
            None => None,
        },
    }
}

/// The CSS file in force: the resolved path of the theme (already narrowed
/// to its variant) when there is one and it resolves, none when it does not
/// resolve; without a theme the configured `css` path; `None` means the
/// built-in theme.
pub open spec fn active_css_of(theme: Option<Seq<char>>, css: Option<Seq<char>>, home: Option<Seq<char>>, app: Seq<char>) -> Option<Seq<char>> {
    match theme {
        Some(n) => {
            let p = theme_path_of(n, home, app);
            if p.len() == 0 {
                None
            } else {
                Some(p)
            }
        },
        None => css,
    }
}

/// Decide which CSS file the bar loads.
pub fn active_css_path(theme: Option<&str>, css: &Option<String>, home: Option<&str>, app: &str) -> (r:
    Option<String>)
    ensures
        match (r, active_css_of(opt_str(theme), match css {
            Some(c) => Some(c@),
            None => None,
        }, opt_str(home), app@)) {
            (Some(x), Some(y)) => x@ == y,
            (None, None) => true,
            _ => false,
        },
{
    match theme {
        Some(n) => {
            let p = resolve_theme_path(n, home, app);
            if p.as_str().is_empty() {
                None
            } else {
                Some(p)
            }
        },
        None => match css {
            Some(c) => Some(c.clone()),
            None => None,
        },
    }
}

/// The config file: the path in the override variable when set, else
/// `<home>/.config/<app>/config.toml` with `/root` standing in for an unset
/// home.
pub open spec fn config_path_of(env_override: Option<Seq<char>>, home: Option<Seq<char>>, app: Seq<char>) -> Seq<char> {
    match env_override {
        Some(p) => p,
        None => joined_path(
            match home {
                Some(h) => h,
                None => "/root"@,
            },
            ".config/"@ + app + "/config.toml"@,
        ),
    }
}

/// Locate the config file.
pub fn config_path(env_override: Option<&str>, home: Option<&str>, app: &str) -> (r: String)
    ensures
        r@ == config_path_of(opt_str(env_override), opt_str(home), app@),
{
    match env_override {
        Some(p) => string_of(chars_of(p).as_slice()),
        None => {
            let a = concat_from(&chars_of(".config/"), &chars_of(app), 0);
            let b = concat_from(&a, &chars_of("/config.toml"), 0);
            assert(b@ =~= ".config/"@ + app@ + "/config.toml"@);
            let rel = string_of(b.as_slice());
            match home {
                Some(h) => join_path(h, rel.as_str()),
                None => join_path("/root", rel.as_str()),
            }
        },
    }
}

// ── Command line ──────────────────────────────────────────────────────────────

/// What the program is asked to do.
#[derive(Debug, Clone, PartialEq, Eq)]
pub enum CliAction {
    /// Write the starter config and exit.
    InitConfig,
    /// Print the config JSON Schema and exit.
    DumpSchema,
    /// Run the bar, with an optional theme override.
    Run { theme: Option<String> },
}

/// The value after the first `--theme`, if any follows it.
pub open spec fn theme_arg_of(args: Seq<Seq<char>>) -> Option<Seq<char>>
    decreases args.len(),
{
    if args.len() == 0 {
        None
    } else if args[0] == "--theme"@ {
        if args.len() > 1 {
            Some(args[1])
        } else {
            None
        }
    } else {
        theme_arg_of(args.drop_first())
    }
}

/// The `--theme <name>` override among the arguments (program name
/// excluded).
pub fn theme_arg(args: &Vec<String>) -> (r: Option<String>)
    ensures
        match (r, theme_arg_of(views(args@))) {
            (Some(x), Some(y)) => x@ == y,
            (None, None) => true,
            _ => false,
        },
{
    let ghost vs = views(args@);
    let flag = chars_of("--theme");
    let mut i: usize = 0;
    assert(vs.skip(0) =~= vs);
    while i < args.len()
        invariant
            i <= args.len(),
            vs == views(args@),
            flag@ == "--theme"@,
            theme_arg_of(vs) == theme_arg_of(vs.skip(i as int)),
        decreases args.len() - i,
    {
        assert(vs.skip(i as int)[0] == args@[i as int]@);
        if chars_eq(&chars_of(args[i].as_str()), &flag) {
            if i + 1 < args.len() {
                assert(vs.skip(i as int)[1] == args@[i + 1]@);
                return Some(args[i + 1].clone());
            } else {
                return None;
            }
        }
        assert(vs.skip(i as int).drop_first() =~= vs.skip(i + 1));
        i = i + 1;
    }
    None
}

/// Whether the arguments contain `a`.
pub open spec fn has_arg(args: Seq<Seq<char>>, a: Seq<char>) -> bool {
    args.contains(a)
}

fn contains_arg(args: &Vec<String>, a: &str) -> (b: bool)
    ensures
        b == has_arg(views(args@), a@),
{
    let target = chars_of(a);
    let mut i: usize = 0;
    while i < args.len()
        invariant
            i <= args.len(),
            target@ == a@,
            forall|k: int| 0 <= k < i ==> args@[k]@ != a@,
        decreases args.len() - i,
    {
        if chars_eq(&chars_of(args[i].as_str()), &target) {
            assert(views(args@)[i as int] == a@);
            return true;
        }
        i = i + 1;
    }
    assert forall|k: int| 0 <= k < views(args@).len() implies views(args@)[k] != a@ by {
        assert(views(args@)[k] == args@[k]@);
    }
    false
}

/// What the command line asks for: `--init-config` anywhere wins, then
/// `--dump-schema`, otherwise run with the `--theme` override if given.
pub fn cli_action(args: &Vec<String>) -> (r: CliAction)
    ensures
        has_arg(views(args@), "--init-config"@) ==> r == CliAction::InitConfig,
        !has_arg(views(args@), "--init-config"@) && has_arg(views(args@), "--dump-schema"@) ==> r
            == CliAction::DumpSchema,
        !has_arg(views(args@), "--init-config"@) && !has_arg(views(args@), "--dump-schema"@) ==> (
        r matches CliAction::Run { theme } && match (theme, theme_arg_of(views(args@))) {
            (Some(x), Some(y)) => x@ == y,
            (None, None) => true,
            _ => false,
        }),
{
    if contains_arg(args, "--init-config") {
        CliAction::InitConfig
    } else if contains_arg(args, "--dump-schema") {
        CliAction::DumpSchema
    } else {
        CliAction::Run { theme: theme_arg(args) }
    }
}

// ── Config file watching ──────────────────────────────────────────────────────

/// Kind of a file-system event on a watched file.
#[derive(Debug, Clone, Copy, PartialEq, Eq, Structural)]
pub enum FsEventKind {
    /// Unspecified or catch-all event.
    Any,
    /// The file was read or opened.
    Access,
    /// The file was created.
    Create,
    /// The file was modified (data, metadata or name).
    Modify,
    /// The file was removed.
    Remove,
    /// Any other event.
    Other,
}

/// Whether an event on the config (or CSS) file signals a change worth a
/// reload: a modification, creation or removal.
pub fn is_change_event(kind: FsEventKind) -> (b: bool)
    ensures
        b == (kind == FsEventKind::Modify || kind == FsEventKind::Create || kind == FsEventKind::Remove),
{
    match kind {
        FsEventKind::Modify | FsEventKind::Create | FsEventKind::Remove => true,
        _ => false,
    }
}

/// Shortest time between two config reloads, in milliseconds.
pub const RELOAD_DEBOUNCE_MS: u128 = 500u128;

/// Whether the config is reloaded: the file changed and at least
/// [`RELOAD_DEBOUNCE_MS`] have passed since the last successful reload, so
/// that the burst of events one save produces triggers a single reload.
pub fn reload_due(changed: bool, since_last_reload_ms: u128) -> (b: bool)
    ensures
        b == (changed && since_last_reload_ms >= RELOAD_DEBOUNCE_MS),
{
    changed && since_last_reload_ms >= RELOAD_DEBOUNCE_MS
}

} // verus!
