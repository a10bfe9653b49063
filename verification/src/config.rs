//! Configuration model for the Parapet bar: the `[bar]` table, the
//! `[[widgets]]` entries with their per-type settings, defaults, and the
//! validation rules that a loaded configuration must meet.
//!
//! Reading the file and the TOML syntax are the application's business; this
//! module holds the values and the rules. Floating-point settings
//! (thresholds, coordinates) are held by their IEEE-754 bit patterns, and the
//! comparisons the rules make on them are those of IEEE-754.

use vstd::prelude::*;
use crate::numbers::{decimal, decimal_chars};
use crate::text::{chars_of, starts_with, string_of};

verus! {

// ── IEEE-754 values held by their bits ───────────────────────────────────────

/// An `f32` held by its IEEE-754 bit pattern (`f32::to_bits`).
#[derive(Debug, Clone, Copy, PartialEq, Eq, Structural)]
pub struct F32Bits(pub u32);

/// An `f64` held by its IEEE-754 bit pattern (`f64::to_bits`).
#[derive(Debug, Clone, Copy, PartialEq, Eq, Structural)]
pub struct F64Bits(pub u64);

/// The bits are a NaN: all exponent bits set and a non-zero fraction.
pub open spec fn f32_is_nan(x: F32Bits) -> bool {
    x.0 as int % 0x8000_0000 > 0x7f80_0000
}

/// Position of a non-NaN `f32` on the number line: its magnitude bits,
/// negated when the sign bit is set (both zeros sit at 0).
pub open spec fn f32_key(x: F32Bits) -> int {
    let m = x.0 as int % 0x8000_0000;
    if x.0 >= 0x8000_0000 {
        -m
    } else {
        m
    }
}

/// IEEE-754 `a <= b` on `f32` values (false when either is NaN).
pub open spec fn f32_le(a: F32Bits, b: F32Bits) -> bool {
    !f32_is_nan(a) && !f32_is_nan(b) && f32_key(a) <= f32_key(b)
}

/// The bits are a NaN (`f64`).
pub open spec fn f64_is_nan(x: F64Bits) -> bool {
    x.0 as int % 0x8000_0000_0000_0000 > 0x7ff0_0000_0000_0000
}

/// Position of a non-NaN `f64` on the number line.
pub open spec fn f64_key(x: F64Bits) -> int {
    let m = x.0 as int % 0x8000_0000_0000_0000;
    if x.0 >= 0x8000_0000_0000_0000 {
        -m
    } else {
        m
    }
}

/// IEEE-754 `a <= b` on `f64` values (false when either is NaN).
pub open spec fn f64_le(a: F64Bits, b: F64Bits) -> bool {
    !f64_is_nan(a) && !f64_is_nan(b) && f64_key(a) <= f64_key(b)
}

/// IEEE-754 `a <= b` on `f32` values.
pub fn f32_less_eq(a: F32Bits, b: F32Bits) -> (r: bool)
    ensures
        r == f32_le(a, b),
{
    let ma = a.0 % 0x8000_0000;
    let mb = b.0 % 0x8000_0000;
    if ma > 0x7f80_0000 || mb > 0x7f80_0000 {
        return false;
    }
    let na = a.0 >= 0x8000_0000;
    let nb = b.0 >= 0x8000_0000;
    if na && nb {
        mb <= ma
    } else if na {
        true
    } else if nb {
        ma == 0 && mb == 0
    } else {
        ma <= mb
    }
}

/// IEEE-754 `a <= b` on `f64` values.
pub fn f64_less_eq(a: F64Bits, b: F64Bits) -> (r: bool)
    ensures
        r == f64_le(a, b),
{
    let ma = a.0 % 0x8000_0000_0000_0000;
    let mb = b.0 % 0x8000_0000_0000_0000;
    if ma > 0x7ff0_0000_0000_0000 || mb > 0x7ff0_0000_0000_0000 {
        return false;
    }
    let na = a.0 >= 0x8000_0000_0000_0000;
    let nb = b.0 >= 0x8000_0000_0000_0000;
    if na && nb {
        mb <= ma
    } else if na {
        true
    } else if nb {
        ma == 0 && mb == 0
    } else {
        ma <= mb
    }
}

/// Bits of `0.0f32`.
pub const F32_ZERO_BITS: u32 = 0x0000_0000u32;

/// Bits of `100.0f32`.
pub const F32_HUNDRED_BITS: u32 = 0x42c8_0000u32;

/// Bits of `80.0f32`, the CPU warning threshold used when none is configured.
pub const CPU_WARN_DEFAULT_BITS: u32 = 0x42a0_0000u32;

/// Bits of `95.0f32`, the CPU critical threshold used when none is configured.
pub const CPU_CRIT_DEFAULT_BITS: u32 = 0x42be_0000u32;

/// Bits of `20.0f32`, the battery warning threshold used when none is configured.
pub const BATTERY_WARN_DEFAULT_BITS: u32 = 0x41a0_0000u32;

/// Bits of `5.0f32`, the battery critical threshold used when none is configured.
pub const BATTERY_CRIT_DEFAULT_BITS: u32 = 0x40a0_0000u32;

/// Bits of `-90.0f64`.
pub const LATITUDE_MIN_BITS: u64 = 0xc056_8000_0000_0000u64;

/// Bits of `90.0f64`.
pub const LATITUDE_MAX_BITS: u64 = 0x4056_8000_0000_0000u64;

/// Bits of `-180.0f64`.
pub const LONGITUDE_MIN_BITS: u64 = 0xc066_8000_0000_0000u64;

/// Bits of `180.0f64`.
pub const LONGITUDE_MAX_BITS: u64 = 0x4066_8000_0000_0000u64;

// ── Bar config ────────────────────────────────────────────────────────────────

/// Screen edge where the bar is anchored.
#[derive(Debug, Clone, Copy, PartialEq, Eq, Structural)]
pub enum BarPosition {
    /// Anchor the bar to the top of the screen.
    Top,
    /// Anchor the bar to the bottom of the screen.
    Bottom,
}

impl Default for BarPosition {
    fn default() -> (p: Self)
        ensures
            p == BarPosition::Top,
    {
        BarPosition::Top
    }
}

/// Which monitor to display the bar on.
#[derive(Debug, Clone, Copy, PartialEq, Eq, Structural)]
pub enum MonitorTarget {
    /// The primary monitor as reported by the display server.
    Primary,
    /// A specific 0-based monitor index.
    Index(usize),
}

impl Default for MonitorTarget {
    fn default() -> (m: Self)
        ensures
            m == MonitorTarget::Primary,
    {
        MonitorTarget::Primary
    }
}

/// Bar section (column) that a widget belongs to.
#[derive(Debug, Clone, Copy, PartialEq, Eq, Structural)]
pub enum BarSection {
    /// Left-aligned section.
    Left,
    /// Centre section.
    Center,
    /// Right-aligned section.
    Right,
}

/// Global bar window configuration. Every field has a default, so the whole
/// `[bar]` table may be omitted.
#[derive(Debug, Clone, PartialEq, Eq)]
pub struct BarConfig {
    /// Screen edge where the bar is anchored. Default: `Top`.
    pub position: BarPosition,
    /// Bar height in pixels. Must be > 0. Default: `30`.
    pub height: u32,
    /// Which monitor to display on. Default: `Primary`.
    pub monitor: MonitorTarget,
    /// Path to a user CSS file; `~` is expanded by validation.
    pub css: Option<String>,
    /// Named theme; takes precedence over `css`.
    pub theme: Option<String>,
    /// Pixel gap between adjacent widgets. Default: `4`.
    pub widget_spacing: u32,
}

impl BarConfig {
    /// Bar height used when the config does not set one: 30 pixels.
    pub fn default_height() -> (h: u32)
        ensures
            h == 30,
    {
        30
    }

    /// Gap between widgets used when the config does not set one: 4 pixels.
    pub fn default_widget_spacing() -> (s: u32)
        ensures
            s == 4,
    {
        4
    }
}

impl Default for BarConfig {
    fn default() -> (c: Self)
        ensures
            c.position == BarPosition::Top,
            c.height == 30,
            c.monitor == MonitorTarget::Primary,
            c.css is None,
            c.theme is None,
            c.widget_spacing == 4,
    {
        BarConfig {
            position: BarPosition::Top,
            height: Self::default_height(),
            monitor: MonitorTarget::Primary,
            css: None,
            theme: None,
            widget_spacing: Self::default_widget_spacing(),
        }
    }
}

// ── Monitor target in the config file ────────────────────────────────────────

/// How a monitor target is written in the config file: the string
/// `"primary"` or an integer index.
#[derive(Debug, Clone, PartialEq, Eq)]
pub enum MonitorValue {
    /// A string value.
    Text(String),
    /// A non-negative integer value.
    Unsigned(u64),
    /// A signed integer value.
    Signed(i64),
}

/// Why a monitor value was refused.
#[derive(Debug, Clone, PartialEq, Eq)]
pub enum MonitorValueError {
    /// A string other than `"primary"`.
    UnknownTarget(String),
    /// An integer that is negative or does not fit a `usize`.
    OutOfRange,
}

/// `"primary"`.
pub open spec fn primary_word() -> Seq<char> {
    seq!['p', 'r', 'i', 'm', 'a', 'r', 'y']
}

/// The monitor target a config value denotes, if any.
pub open spec fn monitor_target_of(v: MonitorValue) -> Option<MonitorTarget> {
    match v {
        MonitorValue::Text(s) => if s@ == primary_word() {
            Some(MonitorTarget::Primary)
        } else {
            None
        },
        MonitorValue::Unsigned(n) => if n <= usize::MAX {
            Some(MonitorTarget::Index(n as usize))
        } else {
            None
        },
        MonitorValue::Signed(n) => if 0 <= n <= usize::MAX {
            Some(MonitorTarget::Index(n as usize))
        } else {
            None
        },
    }
}

/// Read a monitor target from its config value: `"primary"` or an index
/// that fits a `usize`.
pub fn monitor_target_from_value(v: &MonitorValue) -> (r: Result<MonitorTarget, MonitorValueError>)
    ensures
        match monitor_target_of(*v) {
            Some(m) => r == Ok::<MonitorTarget, MonitorValueError>(m),
            None => r is Err,
        },
        monitor_target_of(*v) is None ==> match *v {
            MonitorValue::Text(t) => r matches Err(MonitorValueError::UnknownTarget(s)) && s@ == t@,
            _ => r == Err::<MonitorTarget, MonitorValueError>(MonitorValueError::OutOfRange),
        },
{
    match v {
        MonitorValue::Text(s) => {
            let c = chars_of(s.as_str());
            let p = vec!['p', 'r', 'i', 'm', 'a', 'r', 'y'];
            if c.len() == p.len() && c[0] == p[0] && c[1] == p[1] && c[2] == p[2] && c[3] == p[3]
                && c[4] == p[4] && c[5] == p[5] && c[6] == p[6] {
                assert(c@ == primary_word());
                Ok(MonitorTarget::Primary)
            } else {
                assert(c@ != primary_word());
                Err(MonitorValueError::UnknownTarget(string_of(c.as_slice())))
            }
        },
        MonitorValue::Unsigned(n) => {
            if *n <= usize::MAX as u64 {
                Ok(MonitorTarget::Index(*n as usize))
            } else {
                Err(MonitorValueError::OutOfRange)
            }
        },
        MonitorValue::Signed(n) => {
            if 0 <= *n && *n as u64 <= usize::MAX as u64 {
                Ok(MonitorTarget::Index(*n as usize))
            } else {
                Err(MonitorValueError::OutOfRange)
            }
        },
    }
}

/// How a monitor target is written back: `"primary"` or the index.
pub fn monitor_target_to_value(m: &MonitorTarget) -> (v: MonitorValue)
    ensures
        match *m {
            MonitorTarget::Primary => v matches MonitorValue::Text(s) && s@ == primary_word(),
            MonitorTarget::Index(i) => v == MonitorValue::Unsigned(i as u64),
        },
{
    match m {
        MonitorTarget::Primary => {
            let p = vec!['p', 'r', 'i', 'm', 'a', 'r', 'y'];
            MonitorValue::Text(string_of(p.as_slice()))
        },
        MonitorTarget::Index(i) => MonitorValue::Unsigned(*i as u64),
    }
}

/// Writing a monitor target and reading it back gives the same target.
pub proof fn lemma_monitor_target_round_trip(m: MonitorTarget, v: MonitorValue)
    requires
        match m {
            MonitorTarget::Primary => v matches MonitorValue::Text(s) && s@ == primary_word(),
            MonitorTarget::Index(i) => v == MonitorValue::Unsigned(i as u64),
        },
    ensures
        monitor_target_of(v) == Some(m),
{
}


// ── Per-widget config structs ─────────────────────────────────────────────────

/// Clock widget configuration.
#[derive(Debug, Clone, Default, PartialEq, Eq)]
pub struct ClockConfig {
    /// `chrono::format` pattern string (e.g. `"%H:%M:%S"`).
    pub format: Option<String>,
    /// `"local"` or an IANA timezone name (e.g. `"America/New_York"`).
    pub timezone: Option<String>,
}

/// CPU widget configuration.
#[derive(Debug, Clone, Default, PartialEq, Eq)]
pub struct CpuConfig {
    /// Percentage above which the `.warning` class applies. Default: 80.0.
    pub warn_threshold: Option<F32Bits>,
    /// Percentage above which the `.critical` class applies. Default: 95.0.
    pub crit_threshold: Option<F32Bits>,
}

/// Memory widget configuration.
#[derive(Debug, Clone, Default, PartialEq, Eq)]
pub struct MemoryConfig {
    /// Display mode: `"used"`, `"free"`, or `"percent"`.
    pub format: Option<String>,
    /// Whether to include swap usage in the display.
    pub show_swap: Option<bool>,
}

/// Network widget configuration.
#[derive(Debug, Clone, Default, PartialEq, Eq)]
pub struct NetworkConfig {
    /// Interface name (e.g. `"eth0"`) or `"auto"`.
    pub interface: Option<String>,
    /// Whether to prefix the display with the interface name.
    pub show_interface: Option<bool>,
}

/// Battery widget configuration.
#[derive(Debug, Clone, Default, PartialEq, Eq)]
pub struct BatteryConfig {
    /// Percentage below which the `.warning` class applies. Default: 20.0.
    pub warn_threshold: Option<F32Bits>,
    /// Percentage below which the `.critical` class applies. Default: 5.0.
    pub crit_threshold: Option<F32Bits>,
    /// Whether to show a battery icon.
    pub show_icon: Option<bool>,
}

/// Disk widget configuration.
#[derive(Debug, Clone, Default, PartialEq, Eq)]
pub struct DiskConfig {
    /// Filesystem mount point to monitor. Default: `"/"`.
    pub mount: Option<String>,
    /// Bar label format: `"used"` (default), `"percent"`, or `"free"`.
    pub format: Option<String>,
}

/// Volume widget configuration.
#[derive(Debug, Clone, Default, PartialEq, Eq)]
pub struct VolumeConfig {
    /// Show a speaker icon before the level. Default: `true`.
    pub show_icon: Option<bool>,
}

/// Brightness widget configuration.
#[derive(Debug, Clone, Default, PartialEq, Eq)]
pub struct BrightnessConfig {
    /// Show a sun icon before the percentage. Default: `true`.
    pub show_icon: Option<bool>,
}

/// Weather widget configuration.
#[derive(Debug, Clone, Default, PartialEq, Eq)]
pub struct WeatherConfig {
    /// WGS-84 latitude in decimal degrees (negative = south).
    pub latitude: Option<F64Bits>,
    /// WGS-84 longitude in decimal degrees (negative = west).
    pub longitude: Option<F64Bits>,
    /// Temperature unit: `"celsius"` (default) or `"fahrenheit"`.
    pub units: Option<String>,
}

/// Media widget configuration (no settings of its own).
#[derive(Debug, Clone, Default, PartialEq, Eq)]
pub struct MediaConfig {}

/// Workspaces widget configuration.
#[derive(Debug, Clone, Default, PartialEq, Eq)]
pub struct WorkspacesConfig {
    /// Whether to display workspace names or just numbers.
    pub show_names: Option<bool>,
}

/// Launcher widget configuration.
#[derive(Debug, Clone, Default, PartialEq, Eq)]
pub struct LauncherConfig {
    /// Maximum number of search results shown. Default: 10.
    pub max_results: Option<u32>,
    /// Label shown on the bar button. Default: `"Apps"`.
    pub button_label: Option<String>,
    /// Width of the popup window in pixels. Default: 280.
    pub popup_width: Option<i32>,
    /// Minimum height of the popup list in pixels. Default: 200.
    pub popup_min_height: Option<i32>,
    /// Desktop ID stems of pinned apps, e.g. `"firefox"`.
    pub pinned: Vec<String>,
    /// Milliseconds between the cursor entering the button and the dropdown
    /// opening; `0` opens at once. Default: 150.
    pub hover_delay_ms: Option<u32>,
}

/// Separator widget configuration.
#[derive(Debug, Clone, Default, PartialEq, Eq)]
pub struct SeparatorConfig {
    /// Glyph text rendered as the divider. Default: `"|"`.
    pub format: Option<String>,
}

/// Widget type and its type-specific configuration.
#[derive(Debug, Clone, PartialEq, Eq)]
pub enum WidgetKind {
    /// Formatted clock / date display.
    Clock(ClockConfig),
    /// CPU usage percentage with threshold classes.
    Cpu(CpuConfig),
    /// RAM (and optionally swap) usage.
    Memory(MemoryConfig),
    /// Network I/O rates for a named interface.
    Network(NetworkConfig),
    /// Battery charge percentage and status.
    Battery(BatteryConfig),
    /// Filesystem disk usage for a mount point.
    Disk(DiskConfig),
    /// System audio volume level.
    Volume(VolumeConfig),
    /// Screen brightness level.
    Brightness(BrightnessConfig),
    /// Current weather conditions.
    Weather(WeatherConfig),
    /// Media player transport controls.
    Media(MediaConfig),
    /// Workspace switcher buttons.
    Workspaces(WorkspacesConfig),
    /// Application launcher popup.
    Launcher(LauncherConfig),
    /// Visual divider between widgets.
    Separator(SeparatorConfig),
}

/// Configuration for a single widget entry in `[[widgets]]`.
#[derive(Debug, Clone, PartialEq, Eq)]
pub struct WidgetConfig {
    /// Bar section to place this widget in.
    pub position: BarSection,
    /// Polling interval in milliseconds; `None` uses the per-widget default.
    pub interval: Option<u64>,
    /// Static text label displayed before the widget value.
    pub label: Option<String>,
    /// Shell command run on left click.
    pub on_click: Option<String>,
    /// Shell command run on scroll-wheel up.
    pub on_scroll_up: Option<String>,
    /// Shell command run on scroll-wheel down.
    pub on_scroll_down: Option<String>,
    /// Extra CSS class name applied to the widget's root container.
    pub extra_class: Option<String>,
    /// Widget type and its type-specific configuration.
    pub kind: WidgetKind,
}

/// Top-level configuration: the bar and the ordered widget list.
#[derive(Debug, Clone, PartialEq, Eq)]
pub struct ParapetConfig {
    /// Bar window configuration.
    pub bar: BarConfig,
    /// Widget definitions, in config order.
    pub widgets: Vec<WidgetConfig>,
}

} // verus!
