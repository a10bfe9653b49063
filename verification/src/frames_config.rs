//! The earlier, flat configuration format: every widget entry carries a
//! `type` string and the union of all per-type fields. Its validation rules
//! are the bar height and the CPU and battery threshold order; an entry of a
//! known type converts to the typed [`crate::config::WidgetConfig`].

use vstd::prelude::*;
use crate::config::{
    f32_le, f32_less_eq, BarConfig, BarSection, BatteryConfig, BrightnessConfig, ClockConfig,
    CpuConfig, DiskConfig, F32Bits, F64Bits, LauncherConfig, MediaConfig, MemoryConfig,
    NetworkConfig, SeparatorConfig, VolumeConfig, WeatherConfig, WidgetKind, WorkspacesConfig,
    BATTERY_CRIT_DEFAULT_BITS, BATTERY_WARN_DEFAULT_BITS, CPU_CRIT_DEFAULT_BITS,
    CPU_WARN_DEFAULT_BITS,
};
use crate::setup::{default_interval, kind_name, provider_matches, widget_setup, WidgetSetup};
use crate::text::{chars_eq, chars_of, string_of};
use crate::validation::{
    bar_height_word, crit_word, f32_or, warn_word, widget_field, ValidationError, ValidationReason,
};

verus! {

/// One `[[widgets]]` entry of the flat format.
#[derive(Debug, Clone, PartialEq, Eq)]
pub struct WidgetConfig {
    /// Widget type identifier (`"clock"`, `"cpu"`, `"battery"`, ...).
    pub widget_type: String,
    /// Bar section to place this widget in.
    pub position: BarSection,
    /// Polling interval in milliseconds; `None` uses the type's default.
    pub interval: Option<u64>,
    /// Static text label displayed before the widget value.
    pub label: Option<String>,
    /// Clock pattern, memory display mode, or separator glyph.
    pub format: Option<String>,
    /// Clock time zone.
    pub timezone: Option<String>,
    /// Network interface name or `"auto"`.
    pub interface: Option<String>,
    /// Network: prefix the display with the interface name.
    pub show_interface: Option<bool>,
    /// Memory: include swap usage.
    pub show_swap: Option<bool>,
    /// Battery: show an icon.
    pub show_icon: Option<bool>,
    /// Workspaces: show names rather than numbers.
    pub show_names: Option<bool>,
    /// CPU / battery warning threshold.
    pub warn_threshold: Option<F32Bits>,
    /// CPU / battery critical threshold.
    pub crit_threshold: Option<F32Bits>,
    /// Launcher: maximum number of results.
    pub max_results: Option<u32>,
    /// Weather latitude.
    pub latitude: Option<F64Bits>,
    /// Weather longitude.
    pub longitude: Option<F64Bits>,
    /// Weather temperature unit.
    pub units: Option<String>,
    /// Disk mount point.
    pub mount: Option<String>,
    /// Shell command run on left click.
    pub on_click: Option<String>,
    /// Shell command run on scroll up.
    pub on_scroll_up: Option<String>,
    /// Shell command run on scroll down.
    pub on_scroll_down: Option<String>,
    /// Extra CSS class for the widget's container.
    pub extra_class: Option<String>,
}

/// Top-level configuration of the flat format.
#[derive(Debug, Clone, PartialEq, Eq)]
pub struct FramesConfig {
    /// Bar window configuration.
    pub bar: BarConfig,
    /// Widget definitions, in config order.
    pub widgets: Vec<WidgetConfig>,
}

/// `"cpu"`.
pub open spec fn cpu_type() -> Seq<char> {
    seq!['c', 'p', 'u']
}

/// `"battery"`.
pub open spec fn battery_type() -> Seq<char> {
    seq!['b', 'a', 't', 't', 'e', 'r', 'y']
}

/// The rule a flat widget entry breaks: a CPU entry needs warning (default
/// 80) below critical (default 95); a battery entry needs critical (default
/// 5) below warning (default 20).
pub open spec fn flat_widget_error(w: WidgetConfig) -> Option<(Seq<char>, ValidationReason)> {
    if w.widget_type@ == cpu_type() {
        let warn = f32_or(w.warn_threshold, CPU_WARN_DEFAULT_BITS);
        let crit = f32_or(w.crit_threshold, CPU_CRIT_DEFAULT_BITS);
        if f32_le(crit, warn) {
            Some((warn_word(), ValidationReason::CpuThresholdOrder { warn, crit }))
        } else {
            None
        }
    } else if w.widget_type@ == battery_type() {
        let warn = f32_or(w.warn_threshold, BATTERY_WARN_DEFAULT_BITS);
        let crit = f32_or(w.crit_threshold, BATTERY_CRIT_DEFAULT_BITS);
        if f32_le(warn, crit) {
            Some((crit_word(), ValidationReason::BatteryThresholdOrder { crit, warn }))
        } else {
            None
        }
    } else {
        None
    }
}

/// The first flat widget entry that breaks a rule.
pub open spec fn flat_first_error(ws: Seq<WidgetConfig>) -> Option<(int, Seq<char>, ValidationReason)>
    decreases ws.len(),
{
    if ws.len() == 0 {
        None
    } else {
        match flat_first_error(ws.drop_last()) {
            Some(e) => Some(e),
            None => match flat_widget_error(ws.last()) {
                Some((n, r)) => Some((ws.len() - 1, n, r)),
                None => None,
            },
        }
    }
}

/// The first rule the flat configuration breaks.
pub open spec fn frames_config_error(c: FramesConfig) -> Option<(Seq<char>, ValidationReason)> {
    if c.bar.height == 0 {
        Some((bar_height_word(), ValidationReason::HeightZero))
    } else {
        match flat_first_error(c.widgets@) {
            Some((k, n, r)) => Some((widget_field(k, n), r)),
            None => None,
        }
    }
}

proof fn lemma_flat_error_step(ws: Seq<WidgetConfig>, i: int)
    requires
        0 <= i < ws.len(),
    ensures
        flat_first_error(ws.take(i + 1)) == match flat_first_error(ws.take(i)) {
            Some(e) => Some(e),
            None => match flat_widget_error(ws[i]) {
                Some((n, r)) => Some((i, n, r)),
                None => None,
            },
        },
{
    assert(ws.take(i + 1).drop_last() =~= ws.take(i));
}

proof fn lemma_flat_error_prefix(ws: Seq<WidgetConfig>, j: int)
    requires
        0 <= j <= ws.len(),
        flat_first_error(ws.take(j)) is Some,
    ensures
        flat_first_error(ws) == flat_first_error(ws.take(j)),
    decreases ws.len(),
{
    if j == ws.len() {
        assert(ws.take(j) =~= ws);
    } else {
        assert(ws.drop_last().take(j) =~= ws.take(j));
        lemma_flat_error_prefix(ws.drop_last(), j);
    }
}

/// Whether the string is exactly the literal `lit`.
fn is_word(s: &String, lit: &str) -> (b: bool)
    ensures
        b == (s@ == lit@),
{
    chars_eq(&chars_of(s.as_str()), &chars_of(lit))
}

fn flat_widget_check(w: &WidgetConfig) -> (r: Option<(Vec<char>, ValidationReason)>)
    ensures
        match (r, flat_widget_error(*w)) {
            (Some((n, x)), Some((m, y))) => n@ == m && x == y,
            (None, None) => true,
            _ => false,
        },
{
    proof {
        reveal_strlit("cpu");
        reveal_strlit("battery");
        assert("cpu"@ == cpu_type());
        assert("battery"@ == battery_type());
    }
    if is_word(&w.widget_type, "cpu") {
        let warn = match w.warn_threshold {
            Some(v) => v,
            None => F32Bits(CPU_WARN_DEFAULT_BITS),
        };
        let crit = match w.crit_threshold {
            Some(v) => v,
            None => F32Bits(CPU_CRIT_DEFAULT_BITS),
        };
        if f32_less_eq(crit, warn) {
            let n = vec!['w', 'a', 'r', 'n', '_', 't', 'h', 'r', 'e', 's', 'h', 'o', 'l', 'd'];
            assert(n@ == warn_word());
            return Some((n, ValidationReason::CpuThresholdOrder { warn, crit }));
        }
        None
    } else if is_word(&w.widget_type, "battery") {
        let warn = match w.warn_threshold {
            Some(v) => v,
            None => F32Bits(BATTERY_WARN_DEFAULT_BITS),
        };
        let crit = match w.crit_threshold {
            Some(v) => v,
            None => F32Bits(BATTERY_CRIT_DEFAULT_BITS),
        };
        if f32_less_eq(warn, crit) {
            let n = vec!['c', 'r', 'i', 't', '_', 't', 'h', 'r', 'e', 's', 'h', 'o', 'l', 'd'];
            assert(n@ == crit_word());
            return Some((n, ValidationReason::BatteryThresholdOrder { crit, warn }));
        }
        None
    } else {
        None
    }
}

impl FramesConfig {
    /// Check the flat configuration's rules, stopping at the first broken:
    /// `bar.height` > 0, then for each entry in turn the CPU and battery
    /// threshold order.
    pub fn validate(&self) -> (r: Result<(), ValidationError>)
        ensures
            match frames_config_error(*self) {
                None => r is Ok,
                Some((f, reason)) => r matches Err(e) && e.field@ == f && e.reason == reason,
            },
    {
        if self.bar.height == 0 {
            let f = vec!['b', 'a', 'r', '.', 'h', 'e', 'i', 'g', 'h', 't'];
            assert(f@ == bar_height_word());
            return Err(ValidationError { field: string_of(f.as_slice()), reason: ValidationReason::HeightZero });
        }
        let ghost ws = self.widgets@;
        let mut i: usize = 0;
        while i < self.widgets.len()
            invariant
                i <= self.widgets.len(),
                ws == self.widgets@,
                self.bar.height != 0,
                flat_first_error(ws.take(i as int)) is None,
            decreases ws.len() - i,
        {
            proof {
                lemma_flat_error_step(ws, i as int);
            }
            match flat_widget_check(&self.widgets[i]) {
                Some((name, reason)) => {
                    proof {
                        lemma_flat_error_prefix(ws, i + 1);
                    }
                    let field = crate::validation::widget_field_string(i, &name);
                    return Err(ValidationError { field, reason });
                },
                None => {},
            }
            i = i + 1;
        }
        assert(ws.take(ws.len() as int) =~= ws);
        Ok(())
    }
}


// ── Typed view of a flat entry ────────────────────────────────────────────────

/// `k` is the typed widget kind a flat entry of a known type denotes, with
/// the fields of that type carried over (a launcher gets no pinned apps and
/// default popup settings); `None` for an unknown type.
pub open spec fn flat_kind_of(w: WidgetConfig, k: Option<WidgetKind>) -> bool {
    let t = w.widget_type@;
    if t == seq!['c', 'l', 'o', 'c', 'k'] {
        k == Some(WidgetKind::Clock(ClockConfig { format: w.format, timezone: w.timezone }))
    } else if t == cpu_type() {
        k == Some(WidgetKind::Cpu(CpuConfig { warn_threshold: w.warn_threshold, crit_threshold: w.crit_threshold }))
    } else if t == seq!['m', 'e', 'm', 'o', 'r', 'y'] {
        k == Some(WidgetKind::Memory(MemoryConfig { format: w.format, show_swap: w.show_swap }))
    } else if t == seq!['n', 'e', 't', 'w', 'o', 'r', 'k'] {
        k == Some(WidgetKind::Network(NetworkConfig { interface: w.interface, show_interface: w.show_interface }))
    } else if t == battery_type() {
        k == Some(
            WidgetKind::Battery(
                BatteryConfig {
                    warn_threshold: w.warn_threshold,
                    crit_threshold: w.crit_threshold,
                    show_icon: w.show_icon,
                },
            ),
        )
    } else if t == seq!['v', 'o', 'l', 'u', 'm', 'e'] {
        k == Some(WidgetKind::Volume(VolumeConfig { show_icon: w.show_icon }))
    } else if t == seq!['b', 'r', 'i', 'g', 'h', 't', 'n', 'e', 's', 's'] {
        k == Some(WidgetKind::Brightness(BrightnessConfig { show_icon: w.show_icon }))
    } else if t == seq!['w', 'o', 'r', 'k', 's', 'p', 'a', 'c', 'e', 's'] {
        k == Some(WidgetKind::Workspaces(WorkspacesConfig { show_names: w.show_names }))
    } else if t == seq!['l', 'a', 'u', 'n', 'c', 'h', 'e', 'r'] {
        k matches Some(WidgetKind::Launcher(l)) && l.max_results == w.max_results
            && l.button_label is None && l.popup_width is None && l.popup_min_height is None
            && l.pinned@.len() == 0 && l.hover_delay_ms is None
    } else if t == seq!['s', 'e', 'p', 'a', 'r', 'a', 't', 'o', 'r'] {
        k == Some(WidgetKind::Separator(SeparatorConfig { format: w.format }))
    } else if t == seq!['w', 'e', 'a', 't', 'h', 'e', 'r'] {
        k == Some(WidgetKind::Weather(WeatherConfig { latitude: w.latitude, longitude: w.longitude, units: w.units }))
    } else if t == seq!['m', 'e', 'd', 'i', 'a'] {
        k == Some(WidgetKind::Media(MediaConfig {  }))
    } else if t == seq!['d', 'i', 's', 'k'] {
        k == Some(WidgetKind::Disk(DiskConfig { mount: w.mount, format: w.format }))
    } else {
        k is None
    }
}


/// A flat entry's `type` names the typed kind it becomes: a known type
/// gives the kind whose config-file name is that type, and only a type that
/// names no kind gives none.
pub proof fn lemma_flat_type_names_kind(w: WidgetConfig, k: Option<WidgetKind>)
    requires
        flat_kind_of(w, k),
    ensures
        k matches Some(x) ==> kind_name(x) == w.widget_type@,
        k is None ==> forall|x: WidgetKind| kind_name(x) != w.widget_type@,
{
    if k is None {
        assert forall|x: WidgetKind| kind_name(x) != w.widget_type@ by {
            let t = w.widget_type@;
            if kind_name(x) == t {
                match x {
                    WidgetKind::Clock(_) => assert(t == seq!['c', 'l', 'o', 'c', 'k']),
                    _ => {},
                }
            }
        }
    }
}

/// The typed widget kind of a flat entry (see [`flat_kind_of`]).
pub fn typed_kind(w: &WidgetConfig) -> (k: Option<WidgetKind>)
    ensures
        flat_kind_of(*w, k),
        k matches Some(x) ==> kind_name(x) == w.widget_type@,
        k is None ==> forall|x: WidgetKind| kind_name(x) != w.widget_type@,
{
    proof {
        reveal_strlit("clock");
        assert("clock"@ == seq!['c', 'l', 'o', 'c', 'k']);
        reveal_strlit("cpu");
        assert("cpu"@ == seq!['c', 'p', 'u']);
        reveal_strlit("memory");
        assert("memory"@ == seq!['m', 'e', 'm', 'o', 'r', 'y']);
        reveal_strlit("network");
        assert("network"@ == seq!['n', 'e', 't', 'w', 'o', 'r', 'k']);
        reveal_strlit("battery");
        assert("battery"@ == seq!['b', 'a', 't', 't', 'e', 'r', 'y']);
        reveal_strlit("volume");
        assert("volume"@ == seq!['v', 'o', 'l', 'u', 'm', 'e']);
        reveal_strlit("brightness");
        assert("brightness"@ == seq!['b', 'r', 'i', 'g', 'h', 't', 'n', 'e', 's', 's']);
        reveal_strlit("workspaces");
        assert("workspaces"@ == seq!['w', 'o', 'r', 'k', 's', 'p', 'a', 'c', 'e', 's']);
        reveal_strlit("launcher");
        assert("launcher"@ == seq!['l', 'a', 'u', 'n', 'c', 'h', 'e', 'r']);
        reveal_strlit("separator");
        assert("separator"@ == seq!['s', 'e', 'p', 'a', 'r', 'a', 't', 'o', 'r']);
        reveal_strlit("weather");
        assert("weather"@ == seq!['w', 'e', 'a', 't', 'h', 'e', 'r']);
        reveal_strlit("media");
        assert("media"@ == seq!['m', 'e', 'd', 'i', 'a']);
        reveal_strlit("disk");
        assert("disk"@ == seq!['d', 'i', 's', 'k']);
    }
    let k = if is_word(&w.widget_type, "clock") {
        Some(WidgetKind::Clock(ClockConfig { format: w.format.clone(), timezone: w.timezone.clone() }))
    } else if is_word(&w.widget_type, "cpu") {
        Some(WidgetKind::Cpu(CpuConfig { warn_threshold: w.warn_threshold, crit_threshold: w.crit_threshold }))
    } else if is_word(&w.widget_type, "memory") {
        Some(WidgetKind::Memory(MemoryConfig { format: w.format.clone(), show_swap: w.show_swap }))
    } else if is_word(&w.widget_type, "network") {
        Some(WidgetKind::Network(NetworkConfig { interface: w.interface.clone(), show_interface: w.show_interface }))
    } else if is_word(&w.widget_type, "battery") {
        Some(WidgetKind::Battery(BatteryConfig { warn_threshold: w.warn_threshold, crit_threshold: w.crit_threshold, show_icon: w.show_icon }))
    } else if is_word(&w.widget_type, "volume") {
        Some(WidgetKind::Volume(VolumeConfig { show_icon: w.show_icon }))
    } else if is_word(&w.widget_type, "brightness") {
        Some(WidgetKind::Brightness(BrightnessConfig { show_icon: w.show_icon }))
    } else if is_word(&w.widget_type, "workspaces") {
        Some(WidgetKind::Workspaces(WorkspacesConfig { show_names: w.show_names }))
    } else if is_word(&w.widget_type, "launcher") {
        Some(WidgetKind::Launcher(LauncherConfig { max_results: w.max_results, button_label: None, popup_width: None, popup_min_height: None, pinned: Vec::new(), hover_delay_ms: None }))
    } else if is_word(&w.widget_type, "separator") {
        Some(WidgetKind::Separator(SeparatorConfig { format: w.format.clone() }))
    } else if is_word(&w.widget_type, "weather") {
        Some(WidgetKind::Weather(WeatherConfig { latitude: w.latitude, longitude: w.longitude, units: w.units.clone() }))
    } else if is_word(&w.widget_type, "media") {
        Some(WidgetKind::Media(MediaConfig {  }))
    } else if is_word(&w.widget_type, "disk") {
        Some(WidgetKind::Disk(DiskConfig { mount: w.mount.clone(), format: w.format.clone() }))
    } else {
        None
    };
    proof {
        lemma_flat_type_names_kind(*w, k);
    }
    k
}

/// The typed widget config of a flat entry of a known type: same section,
/// interval, label, actions and class, with the kind from [`typed_kind`];
/// `None` for an unknown type.
pub fn to_typed(w: &WidgetConfig) -> (r: Option<crate::config::WidgetConfig>)
    ensures
        match r {
            Some(t) => {
                &&& flat_kind_of(*w, Some(t.kind))
                &&& t.position == w.position
                &&& t.interval == w.interval
                &&& t.label == w.label
                &&& t.on_click == w.on_click
                &&& t.on_scroll_up == w.on_scroll_up
                &&& t.on_scroll_down == w.on_scroll_down
                &&& t.extra_class == w.extra_class
            },
            None => flat_kind_of(*w, None),
        },
{
    match typed_kind(w) {
        Some(kind) => Some(
            crate::config::WidgetConfig {
                position: w.position,
                interval: w.interval,
                label: w.label.clone(),
                on_click: w.on_click.clone(),
                on_scroll_up: w.on_scroll_up.clone(),
                on_scroll_down: w.on_scroll_down.clone(),
                extra_class: w.extra_class.clone(),
                kind,
            },
        ),
        None => None,
    }
}

/// Refresh interval of a flat entry without one: as for the typed form,
/// except memory 5 s, battery 30 s and the workspace switcher 500 ms.
pub open spec fn flat_default_interval(kind: WidgetKind) -> Option<u64> {
    match kind {
        WidgetKind::Memory(_) => Some(5000u64),
        WidgetKind::Battery(_) => Some(30_000u64),
        WidgetKind::Workspaces(_) => Some(500u64),
        _ => default_interval(kind),
    }
}

/// How a flat entry is set up: as its typed form would be, with the flat
/// format's own default intervals (see [`flat_default_interval`]); an entry
/// of unknown type is skipped (`None`).
pub fn frames_widget_setup(w: &WidgetConfig) -> (r: Option<WidgetSetup>)
    ensures
        match r {
            Some(s) => exists|t: crate::config::WidgetConfig| {
                &&& flat_kind_of(*w, Some(t.kind))
                &&& t.position == w.position
                &&& t.interval == w.interval
                &&& t.label == w.label
                &&& s.name@ == match t.label {
                    Some(l) => l@,
                    None => kind_name(t.kind),
                }
                &&& s.section == t.position
                &&& provider_matches(t.kind, s.provider)
                &&& s.interval_ms == match flat_default_interval(t.kind) {
                    Some(d) => Some(
                        match t.interval {
                            Some(i) => i,
                            None => d,
                        },
                    ),
                    None => None,
                }
            },
            None => flat_kind_of(*w, None),
        },
{
    match to_typed(w) {
        Some(t) => {
            let mut s = widget_setup(&t);
            if t.interval.is_none() {
                match &t.kind {
                    WidgetKind::Memory(_) => {
                        s.interval_ms = Some(5000);
                    },
                    WidgetKind::Battery(_) => {
                        s.interval_ms = Some(30_000);
                    },
                    WidgetKind::Workspaces(_) => {
                        s.interval_ms = Some(500);
                    },
                    _ => {},
                }
            }
            Some(s)
        },
        None => None,
    }
}


/// The typed format's rules are at least as strict as the flat format's:
/// a flat entry whose typed form breaks no rule breaks no flat rule either.
pub proof fn lemma_typed_rules_cover_flat(w: WidgetConfig, t: crate::config::WidgetConfig, home: Option<Seq<char>>)
    requires
        flat_kind_of(w, Some(t.kind)),
        t.interval == w.interval,
        crate::validation::widget_error(t, home) is None,
    ensures
        flat_widget_error(w) is None,
{
}

} // verus!

