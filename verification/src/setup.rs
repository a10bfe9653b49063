//! How each configured widget is set up on the bar: its display name, its
//! refresh interval (with the per-type defaults), the settings its data
//! provider needs, and which user actions its container reacts to.

use vstd::prelude::*;
use crate::config::{BarSection, BrightnessConfig, F64Bits, VolumeConfig, WidgetConfig, WidgetKind};
use crate::text::{chars_of, string_of};
use crate::widget::TempUnit;

verus! {

/// The `type` key of a widget kind in the config file.
pub open spec fn kind_name(kind: WidgetKind) -> Seq<char> {
    match kind {
        WidgetKind::Clock(_) => seq!['c', 'l', 'o', 'c', 'k'],
        WidgetKind::Cpu(_) => seq!['c', 'p', 'u'],
        WidgetKind::Memory(_) => seq!['m', 'e', 'm', 'o', 'r', 'y'],
        WidgetKind::Network(_) => seq!['n', 'e', 't', 'w', 'o', 'r', 'k'],
        WidgetKind::Battery(_) => seq!['b', 'a', 't', 't', 'e', 'r', 'y'],
        WidgetKind::Disk(_) => seq!['d', 'i', 's', 'k'],
        WidgetKind::Volume(_) => seq!['v', 'o', 'l', 'u', 'm', 'e'],
        WidgetKind::Brightness(_) => seq!['b', 'r', 'i', 'g', 'h', 't', 'n', 'e', 's', 's'],
        WidgetKind::Weather(_) => seq!['w', 'e', 'a', 't', 'h', 'e', 'r'],
        WidgetKind::Media(_) => seq!['m', 'e', 'd', 'i', 'a'],
        WidgetKind::Workspaces(_) => seq!['w', 'o', 'r', 'k', 's', 'p', 'a', 'c', 'e', 's'],
        WidgetKind::Launcher(_) => seq!['l', 'a', 'u', 'n', 'c', 'h', 'e', 'r'],
        WidgetKind::Separator(_) => seq!['s', 'e', 'p', 'a', 'r', 'a', 't', 'o', 'r'],
    }
}

/// The name of a widget kind, as its `type` key in the config file.
pub fn widget_kind_name(kind: &WidgetKind) -> (r: &'static str)
    ensures
        r@ == kind_name(*kind),
{
    match kind {
        WidgetKind::Clock(_) => {
            proof {
                reveal_strlit("clock");
            }
            "clock"
        },
        WidgetKind::Cpu(_) => {
            proof {
                reveal_strlit("cpu");
            }
            "cpu"
        },
        WidgetKind::Memory(_) => {
            proof {
                reveal_strlit("memory");
            }
            "memory"
        },
        WidgetKind::Network(_) => {
            proof {
                reveal_strlit("network");
            }
            "network"
        },
        WidgetKind::Battery(_) => {
            proof {
                reveal_strlit("battery");
            }
            "battery"
        },
        WidgetKind::Disk(_) => {
            proof {
                reveal_strlit("disk");
            }
            "disk"
        },
        WidgetKind::Volume(_) => {
            proof {
                reveal_strlit("volume");
            }
            "volume"
        },
        WidgetKind::Brightness(_) => {
            proof {
                reveal_strlit("brightness");
            }
            "brightness"
        },
        WidgetKind::Weather(_) => {
            proof {
                reveal_strlit("weather");
            }
            "weather"
        },
        WidgetKind::Media(_) => {
            proof {
                reveal_strlit("media");
            }
            "media"
        },
        WidgetKind::Workspaces(_) => {
            proof {
                reveal_strlit("workspaces");
            }
            "workspaces"
        },
        WidgetKind::Launcher(_) => {
            proof {
                reveal_strlit("launcher");
            }
            "launcher"
        },
        WidgetKind::Separator(_) => {
            proof {
                reveal_strlit("separator");
            }
            "separator"
        },
    }
}


/// Copy of the string, or of `default` when there is none.
pub fn string_or(o: &Option<String>, default: &str) -> (r: String)
    ensures
        r@ == match o {
            Some(s) => s@,
            None => default@,
        },
{
    match o {
        Some(s) => s.clone(),
        None => string_of(chars_of(default).as_slice()),
    }
}

/// What the widget's data provider is built from.
#[derive(Debug, Clone, PartialEq, Eq)]
pub enum ProviderSettings {
    /// Clock with its `chrono` format.
    Clock { format: String },
    /// CPU usage.
    Cpu,
    /// Memory usage.
    Memory,
    /// Network rates of an interface (or `"auto"`).
    Network { interface: String },
    /// Battery state.
    Battery,
    /// Audio volume.
    Volume,
    /// Screen brightness.
    Brightness,
    /// Weather at a position, in a temperature unit.
    Weather { latitude: F64Bits, longitude: F64Bits, unit: TempUnit },
    /// Media player state.
    Media,
    /// Disk usage of a mount point.
    Disk { mount: String },
    /// Workspace switcher (refreshes itself on its own timer).
    Workspaces,
    /// Application launcher (no refresh).
    Launcher,
    /// Divider with its glyph (no refresh).
    Separator { glyph: String },
}

/// How one configured widget is set up.
#[derive(Debug, Clone, PartialEq, Eq)]
pub struct WidgetSetup {
    /// Name under which its data is dispatched: the label, or the kind name.
    pub name: String,
    /// Bar section it is placed in.
    pub section: BarSection,
    /// Refresh interval in milliseconds; `None` for widgets that never
    /// refresh (launcher, separator).
    pub interval_ms: Option<u64>,
    /// What its data provider is built from.
    pub provider: ProviderSettings,
}

/// Refresh interval used when the config sets none: clock 1 s, CPU 2 s,
/// memory 3 s, network 2 s, battery 5 s, volume 2 s, brightness 5 s,
/// weather 30 min, media 2 s, disk 30 s, workspaces 100 ms; launcher and
/// separator never refresh.
pub open spec fn default_interval(kind: WidgetKind) -> Option<u64> {
    match kind {
        WidgetKind::Clock(_) => Some(1000u64),
        WidgetKind::Cpu(_) => Some(2000u64),
        WidgetKind::Memory(_) => Some(3000u64),
        WidgetKind::Network(_) => Some(2000u64),
        WidgetKind::Battery(_) => Some(5000u64),
        WidgetKind::Volume(_) => Some(2000u64),
        WidgetKind::Brightness(_) => Some(5000u64),
        WidgetKind::Weather(_) => Some(1_800_000u64),
        WidgetKind::Media(_) => Some(2000u64),
        WidgetKind::Disk(_) => Some(30_000u64),
        WidgetKind::Workspaces(_) => Some(100u64),
        WidgetKind::Launcher(_) => None,
        WidgetKind::Separator(_) => None,
    }
}

/// `"fahrenheit"`.
pub open spec fn fahrenheit_word() -> Seq<char> {
    seq!['f', 'a', 'h', 'r', 'e', 'n', 'h', 'e', 'i', 't']
}

/// The temperature unit a weather config selects: Fahrenheit only for
/// `"fahrenheit"`, Celsius otherwise (also when unset).
pub open spec fn unit_of(units: Option<String>) -> TempUnit {
    match units {
        Some(u) => if u@ == fahrenheit_word() {
            TempUnit::Fahrenheit
        } else {
            TempUnit::Celsius
        },
        None => TempUnit::Celsius,
    }
}

/// Whether the volume label starts with a speaker icon (default: yes).
pub fn volume_show_icon(c: &VolumeConfig) -> (b: bool)
    ensures
        b == match c.show_icon {
            Some(v) => v,
            None => true,
        },
{
    match c.show_icon {
        Some(v) => v,
        None => true,
    }
}

/// Whether the brightness label starts with a sun icon (default: yes).
pub fn brightness_show_icon(c: &BrightnessConfig) -> (b: bool)
    ensures
        b == match c.show_icon {
            Some(v) => v,
            None => true,
        },
{
    match c.show_icon {
        Some(v) => v,
        None => true,
    }
}

/// Pick the temperature unit from the weather `units` setting.
pub fn temp_unit_of(units: &Option<String>) -> (u: TempUnit)
    ensures
        u == unit_of(*units),
{
    match units {
        Some(s) => {
            let c = chars_of(s.as_str());
            let f = vec!['f', 'a', 'h', 'r', 'e', 'n', 'h', 'e', 'i', 't'];
            assert(f@ == fahrenheit_word());
            if crate::text::chars_eq(&c, &f) {
                TempUnit::Fahrenheit
            } else {
                TempUnit::Celsius
            }
        },
        None => TempUnit::Celsius,
    }
}

/// The view of an optional string, or `default`.
pub open spec fn view_or(o: Option<String>, default: Seq<char>) -> Seq<char> {
    match o {
        Some(s) => s@,
        None => default,
    }
}

/// The provider settings a widget config yields (defaults: clock format
/// `"%H:%M:%S"`, interface `"eth0"`, mount `"/"`, glyph `"|"`, position
/// 0.0/0.0).
pub open spec fn provider_matches(kind: WidgetKind, p: ProviderSettings) -> bool {
    match (kind, p) {
        (WidgetKind::Clock(c), ProviderSettings::Clock { format }) => format@ == view_or(
            c.format,
            seq!['%', 'H', ':', '%', 'M', ':', '%', 'S'],
        ),
        (WidgetKind::Cpu(_), ProviderSettings::Cpu) => true,
        (WidgetKind::Memory(_), ProviderSettings::Memory) => true,
        (WidgetKind::Network(n), ProviderSettings::Network { interface }) => interface@ == view_or(
            n.interface,
            seq!['e', 't', 'h', '0'],
        ),
        (WidgetKind::Battery(_), ProviderSettings::Battery) => true,
        (WidgetKind::Volume(_), ProviderSettings::Volume) => true,
        (WidgetKind::Brightness(_), ProviderSettings::Brightness) => true,
        (WidgetKind::Weather(w), ProviderSettings::Weather { latitude, longitude, unit }) => {
            &&& latitude == match w.latitude {
                Some(v) => v,
                None => F64Bits(0),
            }
            &&& longitude == match w.longitude {
                Some(v) => v,
                None => F64Bits(0),
            }
            &&& unit == unit_of(w.units)
        },
        (WidgetKind::Media(_), ProviderSettings::Media) => true,
        (WidgetKind::Disk(d), ProviderSettings::Disk { mount }) => mount@ == view_or(d.mount, seq!['/']),
        (WidgetKind::Workspaces(_), ProviderSettings::Workspaces) => true,
        (WidgetKind::Launcher(_), ProviderSettings::Launcher) => true,
        (WidgetKind::Separator(s), ProviderSettings::Separator { glyph }) => glyph@ == view_or(
            s.format,
            seq!['|'],
        ),
        _ => false,
    }
}

/// Work out how a configured widget is set up: its name (the label, or the
/// kind name), section, refresh interval (the configured one, or the kind's
/// default; none for launcher and separator) and provider settings.
pub fn widget_setup(config: &WidgetConfig) -> (s: WidgetSetup)
    ensures
        s.name@ == match config.label {
            Some(l) => l@,
            None => kind_name(config.kind),
        },
        s.section == config.position,
        s.interval_ms == match default_interval(config.kind) {
            Some(d) => Some(
                match config.interval {
                    Some(i) => i,
                    None => d,
                },
            ),
            None => None,
        },
        provider_matches(config.kind, s.provider),
{
    let name = match &config.label {
        Some(l) => l.clone(),
        None => string_of(chars_of(widget_kind_name(&config.kind)).as_slice()),
    };
    let or = |d: u64| -> (r: u64)
        ensures
            r == match config.interval {
                Some(i) => i,
                None => d,
            },
        {
            match config.interval {
                Some(i) => i,
                None => d,
            }
        };
    let (interval_ms, provider) = match &config.kind {
        WidgetKind::Clock(c) => {
            proof {
                reveal_strlit("%H:%M:%S");
                assert("%H:%M:%S"@ == seq!['%', 'H', ':', '%', 'M', ':', '%', 'S']);
            }
            (Some(or(1000)), ProviderSettings::Clock { format: string_or(&c.format, "%H:%M:%S") })
        },
        WidgetKind::Cpu(_) => (Some(or(2000)), ProviderSettings::Cpu),
        WidgetKind::Memory(_) => (Some(or(3000)), ProviderSettings::Memory),
        WidgetKind::Network(n) => {
            proof {
                reveal_strlit("eth0");
                assert("eth0"@ == seq!['e', 't', 'h', '0']);
            }
            (Some(or(2000)), ProviderSettings::Network { interface: string_or(&n.interface, "eth0") })
        },
        WidgetKind::Battery(_) => (Some(or(5000)), ProviderSettings::Battery),
        WidgetKind::Volume(_) => (Some(or(2000)), ProviderSettings::Volume),
        WidgetKind::Brightness(_) => (Some(or(5000)), ProviderSettings::Brightness),
        WidgetKind::Weather(w) => {
            let latitude = match w.latitude {
                Some(v) => v,
                None => F64Bits(0),
            };
            let longitude = match w.longitude {
                Some(v) => v,
                None => F64Bits(0),
            };
            (
                Some(or(1_800_000)),
                ProviderSettings::Weather { latitude, longitude, unit: temp_unit_of(&w.units) },
            )
        },
        WidgetKind::Media(_) => (Some(or(2000)), ProviderSettings::Media),
        WidgetKind::Disk(d) => {
            proof {
                reveal_strlit("/");
                assert("/"@ == seq!['/']);
            }
            (Some(or(30_000)), ProviderSettings::Disk { mount: string_or(&d.mount, "/") })
        },
        WidgetKind::Workspaces(_) => (Some(or(100)), ProviderSettings::Workspaces),
        WidgetKind::Launcher(_) => (None, ProviderSettings::Launcher),
        WidgetKind::Separator(sep) => {
            proof {
                reveal_strlit("|");
                assert("|"@ == seq!['|']);
            }
            (None, ProviderSettings::Separator { glyph: string_or(&sep.format, "|") })
        },
    };
    assert(provider_matches(config.kind, provider));
    WidgetSetup { name, section: config.position, interval_ms, provider }
}

// ── User actions ──────────────────────────────────────────────────────────────

/// A pointer event on a widget's container.
#[derive(Debug, Clone, Copy, PartialEq, Eq, Structural)]
pub enum PointerEvent {
    /// A mouse button press, by button number (1 = primary).
    Button(u32),
    /// Scroll wheel up.
    ScrollUp,
    /// Scroll wheel down.
    ScrollDown,
    /// Any other scroll direction.
    ScrollOther,
}

/// Whether the widget needs an event-catching container: it has a click or
/// scroll command.
pub fn has_actions(config: &WidgetConfig) -> (b: bool)
    ensures
        b == (config.on_click is Some || config.on_scroll_up is Some || config.on_scroll_down is Some),
{
    config.on_click.is_some() || config.on_scroll_up.is_some() || config.on_scroll_down.is_some()
}

/// Whether the container must listen for scroll events.
pub fn listens_to_scroll(config: &WidgetConfig) -> (b: bool)
    ensures
        b == (config.on_scroll_up is Some || config.on_scroll_down is Some),
{
    config.on_scroll_up.is_some() || config.on_scroll_down.is_some()
}

/// The shell command an event runs: the click command on a press of button
/// 1, the scroll commands on scroll up and down, nothing otherwise.
pub fn action_command(config: &WidgetConfig, event: PointerEvent) -> (r: Option<String>)
    ensures
        r == match event {
            PointerEvent::Button(b) => if b == 1 {
                config.on_click
            } else {
                None
            },
            PointerEvent::ScrollUp => config.on_scroll_up,
            PointerEvent::ScrollDown => config.on_scroll_down,
            PointerEvent::ScrollOther => None,
        },
{
    match event {
        PointerEvent::Button(b) => if b == 1 {
            config.on_click.clone()
        } else {
            None
        },
        PointerEvent::ScrollUp => config.on_scroll_up.clone(),
        PointerEvent::ScrollDown => config.on_scroll_down.clone(),
        PointerEvent::ScrollOther => None,
    }
}

} // verus!

