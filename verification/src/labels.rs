//! The text and style decisions of the bar's widget labels that do not
//! involve formatting numbers: truncation of track information, weather and
//! battery glyphs, warning levels against thresholds, and label modes.

use vstd::prelude::*;
use crate::config::{f32_le, f32_less_eq, F32Bits};
use crate::text::{chars_eq, chars_of, concat_from, string_of};
use crate::widget::{BatteryStatus, PlaybackStatus, TempUnit};

verus! {

// ── Truncation and the media label ────────────────────────────────────────────

/// `s` cut to at most `max` characters, the last one replaced by `…` when
/// anything was cut; nothing is left when `max` is 0.
pub open spec fn truncated(s: Seq<char>, max: nat) -> Seq<char> {
    if s.len() <= max {
        s
    } else if max == 0 {
        Seq::empty()
    } else {
        s.take(max - 1).push('\u{2026}')
    }
}

/// Cut `s` to at most `max_chars` characters, ending in `…` when cut.
pub fn truncate(s: &str, max_chars: usize) -> (r: String)
    ensures
        r@ == truncated(s@, max_chars as nat),
{
    let v = chars_of(s);
    if v.len() <= max_chars {
        string_of(v.as_slice())
    } else if max_chars == 0 {
        String::new()
    } else {
        let mut out: Vec<char> = Vec::new();
        let mut i: usize = 0;
        while i < max_chars - 1
            invariant
                max_chars > 0,
                max_chars < v.len(),
                i <= max_chars - 1,
                out@ == v@.take(i as int),
            decreases max_chars - 1 - i,
        {
            out.push(v[i]);
            i = i + 1;
            assert(out@ =~= v@.take(i as int));
        }
        out.push('\u{2026}');
        string_of(out.as_slice())
    }
}

/// Longest title and artist shown, in characters.
pub const MAX_TITLE_CHARS: usize = 30usize;

/// See [`MAX_TITLE_CHARS`].
pub const MAX_ARTIST_CHARS: usize = 30usize;

/// The media label: empty when stopped; `⏸ title` when paused;
/// `▶ title  —  artist` when playing; title and artist truncated.
pub open spec fn media_label_of(title: Seq<char>, artist: Seq<char>, status: PlaybackStatus) -> Seq<
    char,
> {
    match status {
        PlaybackStatus::Stopped => Seq::empty(),
        PlaybackStatus::Paused => seq!['\u{23f8}', ' '] + truncated(title, 30),
        PlaybackStatus::Playing => seq!['\u{25b6}', ' '] + truncated(title, 30) + seq![
            ' ',
            ' ',
            '\u{2014}',
            ' ',
            ' ',
        ] + truncated(artist, 30),
    }
}

/// The media widget's label text.
pub fn media_label(title: &str, artist: &str, status: PlaybackStatus) -> (r: String)
    ensures
        r@ == media_label_of(title@, artist@, status),
{
    match status {
        PlaybackStatus::Stopped => String::new(),
        PlaybackStatus::Paused => {
            let head = vec!['\u{23f8}', ' '];
            let t = chars_of(truncate(title, MAX_TITLE_CHARS).as_str());
            let r = concat_from(&head, &t, 0);
            assert(t@.skip(0) =~= t@);
            string_of(r.as_slice())
        },
        PlaybackStatus::Playing => {
            let head = vec!['\u{25b6}', ' '];
            let t = chars_of(truncate(title, MAX_TITLE_CHARS).as_str());
            let dash = vec![' ', ' ', '\u{2014}', ' ', ' '];
            let a = chars_of(truncate(artist, MAX_ARTIST_CHARS).as_str());
            let r1 = concat_from(&head, &t, 0);
            let r2 = concat_from(&r1, &dash, 0);
            let r3 = concat_from(&r2, &a, 0);
            assert(t@.skip(0) =~= t@);
            assert(dash@.skip(0) =~= dash@);
            assert(a@.skip(0) =~= a@);
            assert(r3@ =~= media_label_of(title@, artist@, status));
            string_of(r3.as_slice())
        },
    }
}

// ── Glyphs ────────────────────────────────────────────────────────────────────

/// The glyph for a WMO weather code: clear, partly cloudy (1–3), fog (45,
/// 48), drizzle (51–57), rain (61–67, 80–82), snow (71–77), thunderstorm
/// (95, 96, 99), or a thermometer for anything else.
pub open spec fn wmo_glyph(code: u16) -> char {
    if code == 0 {
        '\u{2600}'
    } else if 1 <= code <= 3 {
        '\u{26c5}'
    } else if code == 45 || code == 48 {
        '\u{1f32b}'
    } else if 51 <= code <= 57 {
        '\u{1f326}'
    } else if (61 <= code <= 67) || (80 <= code <= 82) {
        '\u{1f327}'
    } else if 71 <= code <= 77 {
        '\u{2744}'
    } else if code == 95 || code == 96 || code == 99 {
        '\u{26c8}'
    } else {
        '\u{1f321}'
    }
}

/// The weather glyph for a WMO weather code.
pub fn wmo_icon(code: u16) -> (c: char)
    ensures
        c == wmo_glyph(code),
        (61 <= code <= 67 || 80 <= code <= 82) ==> c == '\u{1f327}',
        (71 <= code <= 77) ==> c == '\u{2744}',
        code == 0 ==> c == '\u{2600}',
{
    if code == 0 {
        '\u{2600}'
    } else if 1 <= code && code <= 3 {
        '\u{26c5}'
    } else if code == 45 || code == 48 {
        '\u{1f32b}'
    } else if 51 <= code && code <= 57 {
        '\u{1f326}'
    } else if (61 <= code && code <= 67) || (80 <= code && code <= 82) {
        '\u{1f327}'
    } else if 71 <= code && code <= 77 {
        '\u{2744}'
    } else if code == 95 || code == 96 || code == 99 {
        '\u{26c8}'
    } else {
        '\u{1f321}'
    }
}

/// The WMO weather table, code group by code group: clear sky `0` is a sun;
/// `1`–`3` partly cloudy; fog `45`, `48`; drizzle `51`–`57` a sun behind
/// rain; rain `61`–`67` and rain showers `80`–`82` a rain cloud; snow
/// `71`–`77` a snowflake; thunderstorms `95`, `96`, `99`; every other code
/// a thermometer.
pub proof fn lemma_wmo_table(code: u16)
    ensures
        code == 0 ==> wmo_glyph(code) == '\u{2600}',
        1 <= code <= 3 ==> wmo_glyph(code) == '\u{26c5}',
        code == 45 || code == 48 ==> wmo_glyph(code) == '\u{1f32b}',
        51 <= code <= 57 ==> wmo_glyph(code) == '\u{1f326}',
        61 <= code <= 67 ==> wmo_glyph(code) == '\u{1f327}',
        80 <= code <= 82 ==> wmo_glyph(code) == '\u{1f327}',
        71 <= code <= 77 ==> wmo_glyph(code) == '\u{2744}',
        code == 95 || code == 96 || code == 99 ==> wmo_glyph(code) == '\u{26c8}',
        !(code <= 3 || code == 45 || code == 48 || 51 <= code <= 57 || 61 <= code <= 67 || 71 <= code <= 77
            || 80 <= code <= 82 || code == 95 || code == 96 || code == 99) ==> wmo_glyph(code) == '\u{1f321}',
{
}

/// The letter shown after the degree sign.
pub fn temp_unit_symbol(unit: TempUnit) -> (c: char)
    ensures
        c == match unit {
            TempUnit::Celsius => 'C',
            TempUnit::Fahrenheit => 'F',
        },
{
    match unit {
        TempUnit::Celsius => 'C',
        TempUnit::Fahrenheit => 'F',
    }
}

/// The battery glyph for a charging status.
pub fn battery_icon(status: BatteryStatus) -> (c: char)
    ensures
        c == match status {
            BatteryStatus::Charging => '\u{26a1}',
            BatteryStatus::Discharging => '\u{1f50b}',
            BatteryStatus::Full => '\u{1f50c}',
            BatteryStatus::Unknown => '\u{2753}',
        },
{
    match status {
        BatteryStatus::Charging => '\u{26a1}',
        BatteryStatus::Discharging => '\u{1f50b}',
        BatteryStatus::Full => '\u{1f50c}',
        BatteryStatus::Unknown => '\u{2753}',
    }
}

/// The speaker glyph: muted or sounding.
pub fn volume_icon(muted: bool) -> (c: char)
    ensures
        c == if muted {
            '\u{1f507}'
        } else {
            '\u{1f50a}'
        },
{
    if muted {
        '\u{1f507}'
    } else {
        '\u{1f50a}'
    }
}

// ── Warning levels ────────────────────────────────────────────────────────────

/// Style class of a value compared against its thresholds.
#[derive(Debug, Clone, Copy, PartialEq, Eq, Structural)]
pub enum LevelClass {
    /// Neither threshold reached.
    Normal,
    /// The warning threshold reached.
    Warning,
    /// The critical threshold reached.
    Critical,
}

/// CPU usage level: critical at or above `crit`, else warning at or above
/// `warn`.
pub open spec fn cpu_level_of(usage: F32Bits, warn: F32Bits, crit: F32Bits) -> LevelClass {
    if f32_le(crit, usage) {
        LevelClass::Critical
    } else if f32_le(warn, usage) {
        LevelClass::Warning
    } else {
        LevelClass::Normal
    }
}

/// The CPU label's level for a usage percentage.
pub fn cpu_level(usage: F32Bits, warn: F32Bits, crit: F32Bits) -> (l: LevelClass)
    ensures
        l == cpu_level_of(usage, warn, crit),
{
    if f32_less_eq(crit, usage) {
        LevelClass::Critical
    } else if f32_less_eq(warn, usage) {
        LevelClass::Warning
    } else {
        LevelClass::Normal
    }
}

/// Battery charge level: critical at or below `crit`, else warning at or
/// below `warn`.
pub open spec fn battery_level_of(charge: F32Bits, warn: F32Bits, crit: F32Bits) -> LevelClass {
    if f32_le(charge, crit) {
        LevelClass::Critical
    } else if f32_le(charge, warn) {
        LevelClass::Warning
    } else {
        LevelClass::Normal
    }
}

/// The battery label's level for a charge percentage.
pub fn battery_level(charge: F32Bits, warn: F32Bits, crit: F32Bits) -> (l: LevelClass)
    ensures
        l == battery_level_of(charge, warn, crit),
{
    if f32_less_eq(charge, crit) {
        LevelClass::Critical
    } else if f32_less_eq(charge, warn) {
        LevelClass::Warning
    } else {
        LevelClass::Normal
    }
}

// ── Label modes ───────────────────────────────────────────────────────────────

/// What a memory or disk label shows.
#[derive(Debug, Clone, Copy, PartialEq, Eq, Structural)]
pub enum UsageMode {
    /// Used as a percentage of total.
    Percent,
    /// Free space.
    Free,
    /// Used out of total.
    Used,
}

/// The mode a `format` setting selects: `"percent"`, `"free"`, anything
/// else (and no setting) used/total.
pub open spec fn usage_mode_of(format: Option<Seq<char>>) -> UsageMode {
    match format {
        Some(f) => if f == "percent"@ {
            UsageMode::Percent
        } else if f == "free"@ {
            UsageMode::Free
        } else {
            UsageMode::Used
        },
        None => UsageMode::Used,
    }
}

/// Pick the label mode from a memory or disk `format` setting.
pub fn usage_mode(format: &Option<String>) -> (m: UsageMode)
    ensures
        m == usage_mode_of(
            match format {
                Some(f) => Some(f@),
                None => None,
            },
        ),
{
    match format {
        Some(f) => {
            let v = chars_of(f.as_str());
            if chars_eq(&v, &chars_of("percent")) {
                UsageMode::Percent
            } else if chars_eq(&v, &chars_of("free")) {
                UsageMode::Free
            } else {
                UsageMode::Used
            }
        },
        None => UsageMode::Used,
    }
}

/// Bytes free: total minus used, or 0 when used exceeds total.
pub fn free_bytes(total: u64, used: u64) -> (f: u64)
    ensures
        f == if used <= total {
            (total - used) as u64
        } else {
            0u64
        },
{
    if used <= total {
        total - used
    } else {
        0
    }
}


/// A truncated string never exceeds its limit, a string within the limit is
/// left as it is, and a cut string ends in `…` unless the limit is 0.
pub proof fn lemma_truncated_fits(s: Seq<char>, max: nat)
    ensures
        truncated(s, max).len() <= max,
        s.len() <= max ==> truncated(s, max) == s,
        s.len() > max > 0 ==> truncated(s, max).last() == '\u{2026}',
{
}

} // verus!

