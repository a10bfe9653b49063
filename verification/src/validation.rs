//! The rules a loaded configuration must meet, and the home-directory
//! expansion applied to its path fields while they are checked.

use vstd::prelude::*;
use crate::config::{
    f32_le, f32_less_eq, f64_le, f64_less_eq, BarConfig, BatteryConfig, CpuConfig, DiskConfig,
    F32Bits, F64Bits, ParapetConfig, WeatherConfig, WidgetConfig, WidgetKind,
    BATTERY_CRIT_DEFAULT_BITS, BATTERY_WARN_DEFAULT_BITS, CPU_CRIT_DEFAULT_BITS,
    CPU_WARN_DEFAULT_BITS, F32_HUNDRED_BITS, F32_ZERO_BITS, LATITUDE_MAX_BITS, LATITUDE_MIN_BITS,
    LONGITUDE_MAX_BITS, LONGITUDE_MIN_BITS,
};
use crate::numbers::{decimal, decimal_chars};
use crate::paths::opt_str;
use crate::text::{chars_eq, chars_of, concat_from, has_prefix, starts_with, string_of};

verus! {

// ── Home-directory expansion ──────────────────────────────────────────────────

/// `"$HOME"`.
pub open spec fn dollar_home() -> Seq<char> {
    seq!['$', 'H', 'O', 'M', 'E']
}

/// The path with a leading `~/`, a bare `~`, a leading `$HOME/` or a bare
/// `$HOME` replaced by the home directory; any other path, and every path
/// when the home directory is unknown (`None`), is returned unchanged.
pub open spec fn expanded_path(p: Seq<char>, home: Option<Seq<char>>) -> Seq<char> {
    match home {
        None => p,
        Some(h) => if starts_with(p, seq!['~', '/']) {
            h + p.skip(1)
        } else if p == seq!['~'] {
            h
        } else if starts_with(p, dollar_home().push('/')) {
            h + p.skip(5)
        } else if p == dollar_home() {
            h
        } else {
            p
        },
    }
}

/// Expand a leading `~` or `$HOME` prefix to `home`, the user's home
/// directory (`None` when `HOME` is unset, in which case the path is
/// returned unchanged). Other `$VAR` sequences are left alone.
pub fn expand_path(path: &str, home: Option<&str>) -> (r: String)
    ensures
        r@ == expanded_path(path@, opt_str(home)),
{
    let p = chars_of(path);
    let home = match home {
        Some(h) => h,
        None => {
            return string_of(p.as_slice());
        },
    };
    let h = chars_of(home);
    let tilde_slash = vec!['~', '/'];
    let tilde = vec!['~'];
    let dh_slash = vec!['$', 'H', 'O', 'M', 'E', '/'];
    let dh = vec!['$', 'H', 'O', 'M', 'E'];
    assert(tilde_slash@ == seq!['~', '/']);
    assert(tilde@ == seq!['~']);
    assert(dh_slash@ == dollar_home().push('/'));
    assert(dh@ == dollar_home());
    if has_prefix(&p, &tilde_slash) {
        string_of(concat_from(&h, &p, 1).as_slice())
    } else if chars_eq(&p, &tilde) {
        string_of(h.as_slice())
    } else if has_prefix(&p, &dh_slash) {
        string_of(concat_from(&h, &p, 5).as_slice())
    } else if chars_eq(&p, &dh) {
        string_of(h.as_slice())
    } else {
        string_of(p.as_slice())
    }
}

/// The view of an optional string.
pub open spec fn opt_view(o: Option<String>) -> Option<Seq<char>> {
    match o {
        Some(s) => Some(s@),
        None => None,
    }
}

/// An optional path after expansion.
pub open spec fn expanded_opt(o: Option<Seq<char>>, home: Option<Seq<char>>) -> Option<Seq<char>> {
    match o {
        Some(p) => Some(expanded_path(p, home)),
        None => None,
    }
}

/// Expand an optional path in place.
fn expand_opt_in_place(o: &mut Option<String>, home: Option<&str>)
    ensures
        opt_view(*final(o)) == expanded_opt(opt_view(*old(o)), opt_str(home)),
{
    let e = match o {
        Some(p) => Some(expand_path(p.as_str(), home)),
        None => None,
    };
    *o = e;
}


// ── Validation rules ──────────────────────────────────────────────────────────

/// Which rule a configuration value broke.
#[derive(Debug, Clone, Copy, PartialEq, Eq, Structural)]
pub enum ValidationReason {
    /// `bar.height` is 0; it must be greater than 0.
    HeightZero,
    /// A widget's polling interval is 0; it must be > 0.
    IntervalZero,
    /// CPU `warn_threshold` (or its default) is not below `crit_threshold`
    /// (or its default); the values compared are carried.
    CpuThresholdOrder { warn: F32Bits, crit: F32Bits },
    /// Battery `crit_threshold` (or its default) is not below
    /// `warn_threshold` (or its default); the values compared are carried.
    BatteryThresholdOrder { crit: F32Bits, warn: F32Bits },
    /// A threshold lies outside 0.0 to 100.0.
    ThresholdRange,
    /// A latitude lies outside -90.0 to 90.0.
    LatitudeRange,
    /// A longitude lies outside -180.0 to 180.0.
    LongitudeRange,
    /// A disk mount point does not start with `/` after expansion.
    MountNotAbsolute,
}

/// The first rule a configuration breaks: the offending field's path
/// (e.g. `"widgets[2].interval"`) and the rule.
#[derive(Debug, Clone, PartialEq, Eq)]
pub struct ValidationError {
    /// Dotted path of the offending field.
    pub field: String,
    /// The rule that was broken.
    pub reason: ValidationReason,
}

/// `"bar.height"`.
pub open spec fn bar_height_word() -> Seq<char> {
    seq!['b', 'a', 'r', '.', 'h', 'e', 'i', 'g', 'h', 't']
}

/// `"interval"`.
pub open spec fn interval_word() -> Seq<char> {
    seq!['i', 'n', 't', 'e', 'r', 'v', 'a', 'l']
}

/// `"warn_threshold"`.
pub open spec fn warn_word() -> Seq<char> {
    seq!['w', 'a', 'r', 'n', '_', 't', 'h', 'r', 'e', 's', 'h', 'o', 'l', 'd']
}

/// `"crit_threshold"`.
pub open spec fn crit_word() -> Seq<char> {
    seq!['c', 'r', 'i', 't', '_', 't', 'h', 'r', 'e', 's', 'h', 'o', 'l', 'd']
}

/// `"latitude"`.
pub open spec fn latitude_word() -> Seq<char> {
    seq!['l', 'a', 't', 'i', 't', 'u', 'd', 'e']
}

/// `"longitude"`.
pub open spec fn longitude_word() -> Seq<char> {
    seq!['l', 'o', 'n', 'g', 'i', 't', 'u', 'd', 'e']
}

/// `"mount"`.
pub open spec fn mount_word() -> Seq<char> {
    seq!['m', 'o', 'u', 'n', 't']
}

/// `"widgets[<i>].<name>"`.
pub open spec fn widget_field(i: int, name: Seq<char>) -> Seq<char> {
    seq!['w', 'i', 'd', 'g', 'e', 't', 's', '['] + decimal(i as nat) + seq![']', '.'] + name
}

/// The configured value, or the default given by its bits.
pub open spec fn f32_or(o: Option<F32Bits>, default_bits: u32) -> F32Bits {
    match o {
        Some(v) => v,
        None => F32Bits(default_bits),
    }
}

/// `(0.0..=100.0).contains(v)`.
pub open spec fn in_percent_range(v: F32Bits) -> bool {
    f32_le(F32Bits(F32_ZERO_BITS), v) && f32_le(v, F32Bits(F32_HUNDRED_BITS))
}

/// A set threshold outside 0.0 to 100.0, the warning one checked first.
pub open spec fn threshold_range_error(warn: Option<F32Bits>, crit: Option<F32Bits>) -> Option<
    (Seq<char>, ValidationReason),
> {
    if warn matches Some(v) && !in_percent_range(v) {
        Some((warn_word(), ValidationReason::ThresholdRange))
    } else if crit matches Some(v) && !in_percent_range(v) {
        Some((crit_word(), ValidationReason::ThresholdRange))
    } else {
        None
    }
}

/// CPU rule: warning (default 80) below critical (default 95), then both
/// set values within 0 to 100.
pub open spec fn cpu_error(c: CpuConfig) -> Option<(Seq<char>, ValidationReason)> {
    let warn = f32_or(c.warn_threshold, CPU_WARN_DEFAULT_BITS);
    let crit = f32_or(c.crit_threshold, CPU_CRIT_DEFAULT_BITS);
    if f32_le(crit, warn) {
        Some((warn_word(), ValidationReason::CpuThresholdOrder { warn, crit }))
    } else {
        threshold_range_error(c.warn_threshold, c.crit_threshold)
    }
}

/// Battery rule: critical (default 5) below warning (default 20), then both
/// set values within 0 to 100.
pub open spec fn battery_error(b: BatteryConfig) -> Option<(Seq<char>, ValidationReason)> {
    let warn = f32_or(b.warn_threshold, BATTERY_WARN_DEFAULT_BITS);
    let crit = f32_or(b.crit_threshold, BATTERY_CRIT_DEFAULT_BITS);
    if f32_le(warn, crit) {
        Some((crit_word(), ValidationReason::BatteryThresholdOrder { crit, warn }))
    } else {
        threshold_range_error(b.warn_threshold, b.crit_threshold)
    }
}

/// Weather rule: a set latitude within -90 to 90, a set longitude within
/// -180 to 180.
pub open spec fn weather_error(w: WeatherConfig) -> Option<(Seq<char>, ValidationReason)> {
    if w.latitude matches Some(v) && !(f64_le(F64Bits(LATITUDE_MIN_BITS), v) && f64_le(
        v,
        F64Bits(LATITUDE_MAX_BITS),
    )) {
        Some((latitude_word(), ValidationReason::LatitudeRange))
    } else if w.longitude matches Some(v) && !(f64_le(F64Bits(LONGITUDE_MIN_BITS), v) && f64_le(
        v,
        F64Bits(LONGITUDE_MAX_BITS),
    )) {
        Some((longitude_word(), ValidationReason::LongitudeRange))
    } else {
        None
    }
}

/// Disk rule: a set mount point, once expanded, starts with `/`.
pub open spec fn disk_error(d: DiskConfig, home: Option<Seq<char>>) -> Option<(Seq<char>, ValidationReason)> {
    match d.mount {
        Some(m) => if starts_with(expanded_path(m@, home), seq!['/']) {
            None
        } else {
            Some((mount_word(), ValidationReason::MountNotAbsolute))
        },
        None => None,
    }
}

/// The first rule a widget breaks, as the field name within the widget and
/// the rule.
pub open spec fn widget_error(w: WidgetConfig, home: Option<Seq<char>>) -> Option<(Seq<char>, ValidationReason)> {
    if w.interval == Some(0u64) {
        Some((interval_word(), ValidationReason::IntervalZero))
    } else {
        match w.kind {
            WidgetKind::Cpu(c) => cpu_error(c),
            WidgetKind::Battery(b) => battery_error(b),
            WidgetKind::Weather(x) => weather_error(x),
            WidgetKind::Disk(d) => disk_error(d, home),
            _ => None,
        }
    }
}

/// The first widget that breaks a rule: its index, field name and rule.
pub open spec fn first_widget_error(ws: Seq<WidgetConfig>, home: Option<Seq<char>>) -> Option<
    (int, Seq<char>, ValidationReason),
>
    decreases ws.len(),
{
    if ws.len() == 0 {
        None
    } else {
        match first_widget_error(ws.drop_last(), home) {
            Some(e) => Some(e),
            None => match widget_error(ws.last(), home) {
                Some((n, r)) => Some((ws.len() - 1, n, r)),
                None => None,
            },
        }
    }
}

/// The first rule the configuration breaks: the bar height first, then the
/// widgets in order.
pub open spec fn config_error(c: ParapetConfig, home: Option<Seq<char>>) -> Option<(Seq<char>, ValidationReason)> {
    if c.bar.height == 0 {
        Some((bar_height_word(), ValidationReason::HeightZero))
    } else {
        match first_widget_error(c.widgets@, home) {
            Some((k, n, r)) => Some((widget_field(k, n), r)),
            None => None,
        }
    }
}

/// The mount point of a disk widget.
pub open spec fn disk_mount(w: WidgetConfig) -> Option<String> {
    match w.kind {
        WidgetKind::Disk(d) => d.mount,
        _ => None,
    }
}

/// The widget with its disk mount point replaced (other widgets unchanged).
pub open spec fn with_disk_mount(w: WidgetConfig, m: Option<String>) -> WidgetConfig {
    match w.kind {
        WidgetKind::Disk(d) => WidgetConfig { kind: WidgetKind::Disk(DiskConfig { mount: m, ..d }), ..w },
        _ => w,
    }
}

/// `n` is what validation leaves of widget `o`: a disk mount point is
/// expanded unless the interval rule stopped validation first; nothing else
/// changes.
pub open spec fn widget_settled(o: WidgetConfig, n: WidgetConfig, home: Option<Seq<char>>) -> bool {
    if o.interval == Some(0u64) {
        n == o
    } else {
        &&& n == with_disk_mount(o, disk_mount(n))
        &&& opt_view(disk_mount(n)) == expanded_opt(opt_view(disk_mount(o)), home)
    }
}

/// How many widgets validation reaches: up to and including the first
/// failing one.
pub open spec fn settled_count(ws: Seq<WidgetConfig>, home: Option<Seq<char>>) -> int {
    match first_widget_error(ws, home) {
        Some((k, _, _)) => k + 1,
        None => ws.len() as int,
    }
}

/// `n` is what validation leaves of the widget list `o`.
pub open spec fn widgets_settled(o: Seq<WidgetConfig>, n: Seq<WidgetConfig>, home: Option<Seq<char>>) -> bool {
    &&& n.len() == o.len()
    &&& forall|i: int|
        0 <= i < o.len() ==> if i < settled_count(o, home) {
            widget_settled(#[trigger] o[i], n[i], home)
        } else {
            n[i] == o[i]
        }
}

/// `n` is what validation leaves of the bar settings `o`: `css` and `theme`
/// expanded, the rest unchanged.
pub open spec fn bar_settled(o: BarConfig, n: BarConfig, home: Option<Seq<char>>) -> bool {
    &&& n == BarConfig { css: n.css, theme: n.theme, ..o }
    &&& opt_view(n.css) == expanded_opt(opt_view(o.css), home)
    &&& opt_view(n.theme) == expanded_opt(opt_view(o.theme), home)
}

/// A rule result held with a vector for the field name.
pub open spec fn named_view(r: Option<(Vec<char>, ValidationReason)>) -> Option<(Seq<char>, ValidationReason)> {
    match r {
        Some((n, reason)) => Some((n@, reason)),
        None => None,
    }
}


fn warn_word_vec() -> (v: Vec<char>)
    ensures
        v@ == warn_word(),
{
    let v = vec!['w', 'a', 'r', 'n', '_', 't', 'h', 'r', 'e', 's', 'h', 'o', 'l', 'd'];
    assert(v@ == warn_word());
    v
}

fn crit_word_vec() -> (v: Vec<char>)
    ensures
        v@ == crit_word(),
{
    let v = vec!['c', 'r', 'i', 't', '_', 't', 'h', 'r', 'e', 's', 'h', 'o', 'l', 'd'];
    assert(v@ == crit_word());
    v
}

/// `(0.0..=100.0).contains(v)`.
fn percent_range_ok(v: F32Bits) -> (b: bool)
    ensures
        b == in_percent_range(v),
{
    f32_less_eq(F32Bits(F32_ZERO_BITS), v) && f32_less_eq(v, F32Bits(F32_HUNDRED_BITS))
}

fn threshold_range_check(warn: Option<F32Bits>, crit: Option<F32Bits>) -> (r: Option<
    (Vec<char>, ValidationReason),
>)
    ensures
        named_view(r) == threshold_range_error(warn, crit),
{
    if let Some(v) = warn {
        if !percent_range_ok(v) {
            return Some((warn_word_vec(), ValidationReason::ThresholdRange));
        }
    }
    if let Some(v) = crit {
        if !percent_range_ok(v) {
            return Some((crit_word_vec(), ValidationReason::ThresholdRange));
        }
    }
    None
}

fn f32_or_exec(o: Option<F32Bits>, default_bits: u32) -> (r: F32Bits)
    ensures
        r == f32_or(o, default_bits),
{
    match o {
        Some(v) => v,
        None => F32Bits(default_bits),
    }
}

fn cpu_check(c: &CpuConfig) -> (r: Option<(Vec<char>, ValidationReason)>)
    ensures
        named_view(r) == cpu_error(*c),
{
    let warn = f32_or_exec(c.warn_threshold, CPU_WARN_DEFAULT_BITS);
    let crit = f32_or_exec(c.crit_threshold, CPU_CRIT_DEFAULT_BITS);
    if f32_less_eq(crit, warn) {
        Some((warn_word_vec(), ValidationReason::CpuThresholdOrder { warn, crit }))
    } else {
        threshold_range_check(c.warn_threshold, c.crit_threshold)
    }
}

fn battery_check(b: &BatteryConfig) -> (r: Option<(Vec<char>, ValidationReason)>)
    ensures
        named_view(r) == battery_error(*b),
{
    let warn = f32_or_exec(b.warn_threshold, BATTERY_WARN_DEFAULT_BITS);
    let crit = f32_or_exec(b.crit_threshold, BATTERY_CRIT_DEFAULT_BITS);
    if f32_less_eq(warn, crit) {
        Some((crit_word_vec(), ValidationReason::BatteryThresholdOrder { crit, warn }))
    } else {
        threshold_range_check(b.warn_threshold, b.crit_threshold)
    }
}

fn weather_check(w: &WeatherConfig) -> (r: Option<(Vec<char>, ValidationReason)>)
    ensures
        named_view(r) == weather_error(*w),
{
    if let Some(v) = w.latitude {
        if !(f64_less_eq(F64Bits(LATITUDE_MIN_BITS), v) && f64_less_eq(v, F64Bits(LATITUDE_MAX_BITS))) {
            let n = vec!['l', 'a', 't', 'i', 't', 'u', 'd', 'e'];
            assert(n@ == latitude_word());
            return Some((n, ValidationReason::LatitudeRange));
        }
    }
    if let Some(v) = w.longitude {
        if !(f64_less_eq(F64Bits(LONGITUDE_MIN_BITS), v) && f64_less_eq(v, F64Bits(LONGITUDE_MAX_BITS))) {
            let n = vec!['l', 'o', 'n', 'g', 'i', 't', 'u', 'd', 'e'];
            assert(n@ == longitude_word());
            return Some((n, ValidationReason::LongitudeRange));
        }
    }
    None
}

/// Expand a disk widget's mount point in place and check it is absolute.
fn settle_disk(d: &mut DiskConfig, home: Option<&str>) -> (r: Option<(Vec<char>, ValidationReason)>)
    ensures
        named_view(r) == disk_error(*old(d), opt_str(home)),
        *final(d) == (DiskConfig { mount: final(d).mount, ..*old(d) }),
        opt_view(final(d).mount) == expanded_opt(opt_view(old(d).mount), opt_str(home)),
{
    expand_opt_in_place(&mut d.mount, home);
    match &d.mount {
        Some(m) => {
            let c = chars_of(m.as_str());
            let slash = vec!['/'];
            assert(slash@ == seq!['/']);
            if has_prefix(&c, &slash) {
                None
            } else {
                let n = vec!['m', 'o', 'u', 'n', 't'];
                assert(n@ == mount_word());
                Some((n, ValidationReason::MountNotAbsolute))
            }
        },
        None => None,
    }
}

/// Apply a widget's rules, expanding its mount point where it has one.
fn settle_widget(w: &mut WidgetConfig, home: Option<&str>) -> (r: Option<(Vec<char>, ValidationReason)>)
    ensures
        named_view(r) == widget_error(*old(w), opt_str(home)),
        widget_settled(*old(w), *final(w), opt_str(home)),
{
    if let Some(n) = w.interval {
        if n == 0 {
            let v = vec!['i', 'n', 't', 'e', 'r', 'v', 'a', 'l'];
            assert(v@ == interval_word());
            return Some((v, ValidationReason::IntervalZero));
        }
    }
    match &mut w.kind {
        WidgetKind::Cpu(c) => cpu_check(c),
        WidgetKind::Battery(b) => battery_check(b),
        WidgetKind::Weather(x) => weather_check(x),
        WidgetKind::Disk(d) => settle_disk(d, home),
        _ => None,
    }
}

/// The string `"widgets[<i>].<name>"`.
pub(crate) fn widget_field_string(i: usize, name: &Vec<char>) -> (s: String)
    ensures
        s@ == widget_field(i as int, name@),
{
    let head = vec!['w', 'i', 'd', 'g', 'e', 't', 's', '['];
    let digits = decimal_chars(i as u64);
    let a = concat_from(&head, &digits, 0);
    let close = vec![']', '.'];
    let b = concat_from(&a, &close, 0);
    let c = concat_from(&b, name, 0);
    assert(digits@.skip(0) == digits@);
    assert(close@.skip(0) == close@);
    assert(name@.skip(0) == name@);
    assert(c@ =~= widget_field(i as int, name@));
    string_of(c.as_slice())
}

proof fn lemma_first_error_step(ws: Seq<WidgetConfig>, home: Option<Seq<char>>, i: int)
    requires
        0 <= i < ws.len(),
    ensures
        first_widget_error(ws.take(i + 1), home) == match first_widget_error(ws.take(i), home) {
            Some(e) => Some(e),
            None => match widget_error(ws[i], home) {
                Some((n, r)) => Some((i, n, r)),
                None => None,
            },
        },
{
    assert(ws.take(i + 1).drop_last() =~= ws.take(i));
    assert(ws.take(i + 1).last() == ws[i]);
}

proof fn lemma_first_error_prefix(ws: Seq<WidgetConfig>, home: Option<Seq<char>>, j: int)
    requires
        0 <= j <= ws.len(),
        first_widget_error(ws.take(j), home) is Some,
    ensures
        first_widget_error(ws, home) == first_widget_error(ws.take(j), home),
    decreases ws.len(),
{
    if j == ws.len() {
        assert(ws.take(j) =~= ws);
    } else {
        assert(ws.drop_last().take(j) =~= ws.take(j));
        lemma_first_error_prefix(ws.drop_last(), home, j);
    }
}

impl ParapetConfig {
    /// Check the configuration rules, stopping at the first that is broken,
    /// and expand `~` / `$HOME` (against `home`) in the path fields it
    /// passes: `bar.css`, `bar.theme`, and each disk widget's mount point.
    ///
    /// The rules, in order: `bar.height` > 0; then for each widget in turn:
    /// interval > 0; CPU warning (default 80) below critical (default 95)
    /// and both within 0 to 100; battery critical (default 5) below warning
    /// (default 20) and both within 0 to 100; weather latitude within -90 to
    /// 90 and longitude within -180 to 180; disk mount point absolute after
    /// expansion.
    pub fn validate(&mut self, home: Option<&str>) -> (r: Result<(), ValidationError>)
        ensures
            match config_error(*old(self), opt_str(home)) {
                None => r is Ok,
                Some((f, reason)) => r matches Err(e) && e.field@ == f && e.reason == reason,
            },
            old(self).bar.height == 0 ==> *final(self) == *old(self),
            old(self).bar.height != 0 ==> bar_settled(old(self).bar, final(self).bar, opt_str(home))
                && widgets_settled(old(self).widgets@, final(self).widgets@, opt_str(home)),
    {
        if self.bar.height == 0 {
            let f = vec!['b', 'a', 'r', '.', 'h', 'e', 'i', 'g', 'h', 't'];
            assert(f@ == bar_height_word());
            return Err(ValidationError { field: string_of(f.as_slice()), reason: ValidationReason::HeightZero });
        }
        expand_opt_in_place(&mut self.bar.css, home);
        expand_opt_in_place(&mut self.bar.theme, home);
        let ghost old_ws = self.widgets@;
        let ghost bar1 = self.bar;
        let mut i: usize = 0;
        while i < self.widgets.len()
            invariant
                i <= self.widgets.len(),
                self.widgets@.len() == old_ws.len(),
                self.bar == bar1,
                old_ws == old(self).widgets@,
                old(self).bar.height != 0,
                bar_settled(old(self).bar, bar1, opt_str(home)),
                first_widget_error(old_ws.take(i as int), opt_str(home)) is None,
                forall|k: int| 0 <= k < i ==> widget_settled(#[trigger] old_ws[k], self.widgets@[k], opt_str(home)),
                forall|k: int| i <= k < old_ws.len() ==> #[trigger] self.widgets@[k] == old_ws[k],
            decreases old_ws.len() - i,
        {
            let r = settle_widget(&mut self.widgets[i], home);
            proof {
                lemma_first_error_step(old_ws, opt_str(home), i as int);
            }
            match r {
                Some((name, reason)) => {
                    proof {
                        lemma_first_error_prefix(old_ws, opt_str(home), i + 1);
                    }
                    let field = widget_field_string(i, &name);
                    return Err(ValidationError { field, reason });
                },
                None => {},
            }
            i = i + 1;
        }
        assert(old_ws.take(old_ws.len() as int) =~= old_ws);
        Ok(())
    }
}


// ── Laws ──────────────────────────────────────────────────────────────────────

/// Expansion leaves an absolute path unchanged.
pub proof fn lemma_expand_absolute_unchanged(p: Seq<char>, home: Option<Seq<char>>)
    requires
        starts_with(p, seq!['/']),
    ensures
        expanded_path(p, home) == p,
{
    assert(p.take(1)[0] == '/');
    assert(p[0] == '/');
    if starts_with(p, seq!['~', '/']) {
        assert(p.take(2)[0] == p[0]);
    }
    if starts_with(p, dollar_home().push('/')) {
        assert(p.take(6)[0] == p[0]);
    }
    if p == seq!['~'] {
        assert(p[0] == '~');
    }
    if p == dollar_home() {
        assert(p[0] == '$');
    }
}

/// No widget breaks a rule exactly when none of them does.
pub proof fn lemma_first_error_none(ws: Seq<WidgetConfig>, home: Option<Seq<char>>)
    ensures
        first_widget_error(ws, home) is None <==> forall|i: int|
            0 <= i < ws.len() ==> (#[trigger] widget_error(ws[i], home)) is None,
    decreases ws.len(),
{
    if ws.len() > 0 {
        lemma_first_error_none(ws.drop_last(), home);
        assert forall|i: int| 0 <= i < ws.len() - 1 implies ws.drop_last()[i] == ws[i] by {}
        if first_widget_error(ws, home) is None {
            assert forall|i: int| 0 <= i < ws.len() implies (#[trigger] widget_error(ws[i], home)) is None by {
                if i < ws.len() - 1 {
                    assert(widget_error(ws.drop_last()[i], home) is None);
                }
            }
        } else {
            if forall|i: int| 0 <= i < ws.len() ==> (#[trigger] widget_error(ws[i], home)) is None {
                assert forall|i: int| 0 <= i < ws.drop_last().len() implies (#[trigger] widget_error(
                    ws.drop_last()[i],
                    home,
                )) is None by {
                    assert(widget_error(ws[i], home) is None);
                }
                assert(widget_error(ws[ws.len() - 1], home) is None);
            }
        }
    }
}

/// A mount point that is unset or absolute.
pub open spec fn mount_absolute(m: Option<String>) -> bool {
    match m {
        Some(p) => starts_with(p@, seq!['/']),
        None => true,
    }
}

/// After a successful validation every disk widget's mount point is an
/// absolute path.
pub proof fn lemma_validated_mounts_absolute(c: ParapetConfig, n: Seq<WidgetConfig>, home: Option<Seq<char>>)
    requires
        config_error(c, home) is None,
        widgets_settled(c.widgets@, n, home),
    ensures
        forall|i: int| 0 <= i < n.len() ==> mount_absolute(#[trigger] disk_mount(n[i])),
{
    let ws = c.widgets@;
    lemma_first_error_none(ws, home);
    assert forall|i: int| 0 <= i < n.len() implies mount_absolute(#[trigger] disk_mount(n[i])) by {
        assert(widget_error(ws[i], home) is None);
        assert(widget_settled(ws[i], n[i], home));
    }
}

/// Validating an already validated configuration again succeeds: the
/// expanded mount points are absolute and stay as they are, and nothing
/// else that the rules read has changed.
pub proof fn lemma_revalidation_succeeds(c: ParapetConfig, n: ParapetConfig, home: Option<Seq<char>>)
    requires
        config_error(c, home) is None,
        bar_settled(c.bar, n.bar, home),
        widgets_settled(c.widgets@, n.widgets@, home),
    ensures
        config_error(n, home) is None,
{
    let ws = c.widgets@;
    let nw = n.widgets@;
    lemma_first_error_none(ws, home);
    lemma_first_error_none(nw, home);
    assert forall|i: int| 0 <= i < nw.len() implies (#[trigger] widget_error(nw[i], home)) is None by {
        assert(widget_error(ws[i], home) is None);
        assert(widget_settled(ws[i], nw[i], home));
        match ws[i].kind {
            WidgetKind::Disk(d) => {
                match d.mount {
                    Some(m) => {
                        let e = disk_mount(nw[i]);
                        assert(e is Some);
                        lemma_expand_absolute_unchanged(e->0@, home);
                    },
                    None => {},
                }
            },
            _ => {},
        }
    }
}

} // verus!

