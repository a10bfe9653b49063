//! What the data providers make of what they read: sysfs files, `pactl`
//! output, D-Bus player properties, the disk and sensor lists, and the
//! weather service address. Reading itself happens in the application.

use vstd::prelude::*;
use crate::numbers::{parse_unsigned, parse_unsigned_exec};
use crate::text::{
    chars_eq, chars_of, concat_from, contains, contains_exec, find_char, find_char_exec,
    has_prefix, lemma_views_push, lowercase, lowercase_chars, slice_of, starts_with, string_of,
    trim, trim_bounds, trim_end_char, trim_end_char_exec, views,
};
use crate::widget::{BatteryStatus, DiskEntry, PlaybackStatus, TempUnit};
use crate::validation::opt_view;

verus! {

// ── First match ───────────────────────────────────────────────────────────────

/// Position of the first `true`.
pub open spec fn first_true(s: Seq<bool>) -> Option<int>
    decreases s.len(),
{
    if s.len() == 0 {
        None
    } else {
        match first_true(s.drop_last()) {
            Some(i) => Some(i),
            None => if s.last() {
                Some(s.len() - 1)
            } else {
                None
            },
        }
    }
}

proof fn lemma_first_true_step(s: Seq<bool>, j: int)
    requires
        0 <= j < s.len(),
    ensures
        first_true(s.take(j + 1)) == match first_true(s.take(j)) {
            Some(i) => Some(i),
            None => if s[j] {
                Some(j)
            } else {
                None
            },
        },
{
    assert(s.take(j + 1).drop_last() =~= s.take(j));
}

proof fn lemma_first_true_prefix(s: Seq<bool>, j: int)
    requires
        0 <= j <= s.len(),
        first_true(s.take(j)) is Some,
    ensures
        first_true(s) == first_true(s.take(j)),
    decreases s.len(),
{
    if j == s.len() {
        assert(s.take(j) =~= s);
    } else {
        assert(s.drop_last().take(j) =~= s.take(j));
        lemma_first_true_prefix(s.drop_last(), j);
    }
}

/// The position as an integer.
pub open spec fn opt_int(r: Option<usize>) -> Option<int> {
    match r {
        Some(i) => Some(i as int),
        None => None,
    }
}

/// Position of the first `true` in `v`.
pub fn first_true_exec(v: &Vec<bool>) -> (r: Option<usize>)
    ensures
        opt_int(r) == first_true(v@),
        r matches Some(i) ==> i < v@.len() && v@[i as int],
{
    let mut j: usize = 0;
    while j < v.len()
        invariant
            j <= v.len(),
            first_true(v@.take(j as int)) is None,
        decreases v.len() - j,
    {
        proof {
            lemma_first_true_step(v@, j as int);
        }
        if v[j] {
            proof {
                lemma_first_true_prefix(v@, j + 1);
            }
            return Some(j);
        }
        j = j + 1;
    }
    assert(v@.take(v@.len() as int) =~= v@);
    None
}

// ── Battery (sysfs) ───────────────────────────────────────────────────────────

/// Whether a power-supply `type` file names a battery (`"Battery"` once
/// trimmed), as opposed to e.g. an AC adapter.
pub fn is_battery_type(text: &str) -> (b: bool)
    ensures
        b == (trim(text@) == "Battery"@),
{
    let v = chars_of(text);
    let (a, e) = trim_bounds(&v, 0, v.len());
    assert(v@.subrange(0, v@.len() as int) =~= v@);
    let t = slice_of(&v, a, e);
    chars_eq(&t, &chars_of("Battery"))
}

/// Read a decimal `u32` from a sysfs file's text (trimmed), e.g. the
/// battery `capacity` or the backlight `brightness`.
pub fn parse_sysfs_u32(text: &str) -> (r: Option<u32>)
    ensures
        match parse_unsigned(trim(text@), u32::MAX as nat) {
            Some(n) => r == Some(n as u32),
            None => r is None,
        },
{
    let v = chars_of(text);
    let (a, e) = trim_bounds(&v, 0, v.len());
    assert(v@.subrange(0, v@.len() as int) =~= v@);
    match parse_unsigned_exec(&v, a, e, u32::MAX as u64) {
        Some(n) => Some(n as u32),
        None => None,
    }
}

/// The battery status a power-supply `status` file names (trimmed):
/// `Charging`, `Discharging`, `Full` or `Not charging` (both full), anything
/// else, or no readable file, unknown.
pub open spec fn battery_status_of(text: Option<Seq<char>>) -> BatteryStatus {
    match text {
        Some(t) => {
            let s = trim(t);
            if s == "Charging"@ {
                BatteryStatus::Charging
            } else if s == "Discharging"@ {
                BatteryStatus::Discharging
            } else if s == "Full"@ || s == "Not charging"@ {
                BatteryStatus::Full
            } else {
                BatteryStatus::Unknown
            }
        },
        None => BatteryStatus::Unknown,
    }
}

/// The view of an optional `&str`.
pub open spec fn str_view(o: Option<&str>) -> Option<Seq<char>> {
    match o {
        Some(s) => Some(s@),
        None => None,
    }
}

/// Map the content of a power-supply `status` file (`None` when it could
/// not be read) to a battery status.
pub fn parse_battery_status(text: Option<&str>) -> (s: BatteryStatus)
    ensures
        s == battery_status_of(str_view(text)),
{
    match text {
        None => BatteryStatus::Unknown,
        Some(t) => {
            let v = chars_of(t);
            let (a, e) = trim_bounds(&v, 0, v.len());
            assert(v@.subrange(0, v@.len() as int) =~= v@);
            let w = slice_of(&v, a, e);
            if chars_eq(&w, &chars_of("Charging")) {
                BatteryStatus::Charging
            } else if chars_eq(&w, &chars_of("Discharging")) {
                BatteryStatus::Discharging
            } else if chars_eq(&w, &chars_of("Full")) || chars_eq(&w, &chars_of("Not charging")) {
                BatteryStatus::Full
            } else {
                BatteryStatus::Unknown
            }
        },
    }
}

// ── CPU temperature sensor ────────────────────────────────────────────────────

/// Whether the lower-cased label contains `w`.
pub open spec fn label_has(label: Seq<char>, w: Seq<char>) -> bool {
    contains(lowercase(label), w)
}

/// The sensor whose temperature the CPU widget reports: the first whose
/// label mentions `package` (any case); else the first mentioning `core` or
/// `cpu`; else the first with a positive reading (`positive[i]`).
pub open spec fn temp_sensor_choice(labels: Seq<Seq<char>>, positive: Seq<bool>) -> Option<int> {
    let pkg = Seq::new(labels.len(), |i: int| label_has(labels[i], "package"@));
    let core = Seq::new(
        labels.len(),
        |i: int| label_has(labels[i], "core"@) || label_has(labels[i], "cpu"@),
    );
    match first_true(pkg) {
        Some(i) => Some(i),
        None => match first_true(core) {
            Some(i) => Some(i),
            None => first_true(positive),
        },
    }
}

/// `first_true` finds the first `true`: at the position it gives the entry
/// is `true` and every earlier one `false`; it gives nothing only when every
/// entry is `false`.
pub proof fn lemma_first_true_first(s: Seq<bool>)
    ensures
        match first_true(s) {
            Some(i) => 0 <= i < s.len() && s[i] && forall|j: int| 0 <= j < i ==> !s[j],
            None => forall|j: int| 0 <= j < s.len() ==> !s[j],
        },
    decreases s.len(),
{
    if s.len() > 0 {
        lemma_first_true_first(s.drop_last());
        assert forall|j: int| 0 <= j < s.len() - 1 implies s.drop_last()[j] == s[j] by {}
    }
}

/// The label mentions `package` (any case).
pub open spec fn mentions_package(label: Seq<char>) -> bool {
    label_has(label, "package"@)
}

/// The label mentions `core` or `cpu` (any case).
pub open spec fn mentions_core(label: Seq<char>) -> bool {
    label_has(label, "core"@) || label_has(label, "cpu"@)
}

/// `k` is the first position of `labels` whose label mentions `package`.
pub open spec fn first_package_label(labels: Seq<Seq<char>>, k: int) -> bool {
    &&& 0 <= k < labels.len()
    &&& mentions_package(labels[k])
    &&& forall|j: int| 0 <= j < k ==> !mentions_package(#[trigger] labels[j])
}

/// `k` is the first position of `labels` whose label mentions `core` or
/// `cpu`.
pub open spec fn first_core_label(labels: Seq<Seq<char>>, k: int) -> bool {
    &&& 0 <= k < labels.len()
    &&& mentions_core(labels[k])
    &&& forall|j: int| 0 <= j < k ==> !mentions_core(#[trigger] labels[j])
}

/// The sensor choice by priority, over the labels: the first sensor whose
/// label mentions `package` when there is one; else, when some label
/// mentions `core` or `cpu`, the first of those; else the first sensor with
/// a positive reading; and no sensor only when none of the three exists.
pub proof fn lemma_temp_sensor_priority(labels: Seq<Seq<char>>, positive: Seq<bool>)
    requires
        positive.len() == labels.len(),
    ensures
        (exists|i: int| 0 <= i < labels.len() && mentions_package(#[trigger] labels[i])) ==> (temp_sensor_choice(
            labels,
            positive,
        ) matches Some(k) && first_package_label(labels, k)),
        (forall|i: int| 0 <= i < labels.len() ==> !mentions_package(#[trigger] labels[i])) && (exists|i: int|
            0 <= i < labels.len() && mentions_core(#[trigger] labels[i])) ==> (temp_sensor_choice(
            labels,
            positive,
        ) matches Some(k) && first_core_label(labels, k)),
        (forall|i: int|
            0 <= i < labels.len() ==> !mentions_package(#[trigger] labels[i]) && !mentions_core(labels[i]))
            ==> match temp_sensor_choice(labels, positive) {
            Some(k) => 0 <= k < labels.len() && positive[k] && forall|j: int| 0 <= j < k ==> !positive[j],
            None => forall|j: int| 0 <= j < labels.len() ==> !positive[j],
        },
{
    let pkg = Seq::new(labels.len(), |i: int| label_has(labels[i], "package"@));
    let core = Seq::new(
        labels.len(),
        |i: int| label_has(labels[i], "core"@) || label_has(labels[i], "cpu"@),
    );
    assert(temp_sensor_choice(labels, positive) == match first_true(pkg) {
        Some(i) => Some(i),
        None => match first_true(core) {
            Some(i) => Some(i),
            None => first_true(positive),
        },
    });
    lemma_first_true_first(pkg);
    lemma_first_true_first(core);
    lemma_first_true_first(positive);
    assert forall|i: int| 0 <= i < labels.len() implies pkg[i] == mentions_package(#[trigger] labels[i])
        && core[i] == mentions_core(labels[i]) by {}
    match first_true(pkg) {
        Some(k) => {
            assert forall|j: int| 0 <= j < k implies !mentions_package(#[trigger] labels[j]) by {
                assert(!pkg[j]);
            }
            assert(first_package_label(labels, k));
        },
        None => {
            assert forall|i: int| 0 <= i < labels.len() implies !mentions_package(#[trigger] labels[i]) by {
                assert(!pkg[i]);
            }
            match first_true(core) {
                Some(k) => {
                    assert forall|j: int| 0 <= j < k implies !mentions_core(#[trigger] labels[j]) by {
                        assert(!core[j]);
                    }
                    assert(first_core_label(labels, k));
                },
                None => {
                    assert forall|i: int| 0 <= i < labels.len() implies !mentions_core(#[trigger] labels[i]) by {
                        assert(!core[i]);
                    }
                },
            }
        },
    }
}

/// Choose the CPU temperature sensor among the components, given their
/// labels and whether each reads above zero.
pub fn select_temp_sensor(labels: &Vec<String>, positive: &Vec<bool>) -> (r: Option<usize>)
    ensures
        opt_int(r) == temp_sensor_choice(views(labels@), positive@),
{
    let ghost ls = views(labels@);
    let package = chars_of("package");
    let core = chars_of("core");
    let cpu = chars_of("cpu");
    let mut pkg: Vec<bool> = Vec::new();
    let mut cc: Vec<bool> = Vec::new();
    let mut i: usize = 0;
    while i < labels.len()
        invariant
            i <= labels.len(),
            ls == views(labels@),
            package@ == "package"@,
            core@ == "core"@,
            cpu@ == "cpu"@,
            pkg@.len() == i,
            cc@.len() == i,
            forall|k: int| 0 <= k < i ==> pkg@[k] == label_has(ls[k], "package"@),
            forall|k: int|
                0 <= k < i ==> cc@[k] == (label_has(ls[k], "core"@) || label_has(ls[k], "cpu"@)),
        decreases labels.len() - i,
    {
        let c = chars_of(labels[i].as_str());
        let low = lowercase_chars(&c, 0, c.len());
        assert(c@.subrange(0, c@.len() as int) =~= c@);
        assert(ls[i as int] == labels@[i as int]@);
        pkg.push(contains_exec(&low, &package));
        let b = contains_exec(&low, &core) || contains_exec(&low, &cpu);
        cc.push(b);
        i = i + 1;
    }
    assert(pkg@ =~= Seq::new(ls.len(), |k: int| label_has(ls[k], "package"@)));
    assert(cc@ =~= Seq::new(
        ls.len(),
        |k: int| label_has(ls[k], "core"@) || label_has(ls[k], "cpu"@),
    ));
    match first_true_exec(&pkg) {
        Some(k) => Some(k),
        None => match first_true_exec(&cc) {
            Some(k) => Some(k),
            None => first_true_exec(positive),
        },
    }
}

// ── Network ───────────────────────────────────────────────────────────────────

/// The interface a network widget watches: for `"auto"`, the first listed
/// interface other than `lo` (or `lo` when there is none); otherwise the
/// requested name.
pub open spec fn interface_choice(requested: Seq<char>, available: Seq<Seq<char>>) -> Seq<char> {
    if requested == "auto"@ {
        match first_true(Seq::new(available.len(), |i: int| available[i] != "lo"@)) {
            Some(i) => available[i],
            None => "lo"@,
        }
    } else {
        requested
    }
}

/// Resolve the configured interface name against the interfaces the system
/// lists, in the order it lists them.
pub fn resolve_interface(requested: &str, available: &Vec<String>) -> (r: String)
    ensures
        r@ == interface_choice(requested@, views(available@)),
{
    let ghost av = views(available@);
    let req = chars_of(requested);
    if !chars_eq(&req, &chars_of("auto")) {
        return string_of(req.as_slice());
    }
    let lo = chars_of("lo");
    let mut flags: Vec<bool> = Vec::new();
    let mut i: usize = 0;
    while i < available.len()
        invariant
            i <= available.len(),
            av == views(available@),
            lo@ == "lo"@,
            flags@.len() == i,
            forall|k: int| 0 <= k < i ==> flags@[k] == (av[k] != "lo"@),
        decreases available.len() - i,
    {
        let c = chars_of(available[i].as_str());
        assert(av[i as int] == available@[i as int]@);
        flags.push(!chars_eq(&c, &lo));
        i = i + 1;
    }
    assert(flags@ =~= Seq::new(av.len(), |k: int| av[k] != "lo"@));
    match first_true_exec(&flags) {
        Some(k) => {
            assert(av[k as int] == available@[k as int]@);
            available[k].clone()
        },
        None => string_of(lo.as_slice()),
    }
}

/// Bytes received and sent per second as reported: zeros on the first
/// sample (no baseline yet) or when the interface is not listed.
pub fn network_rates(first_call: bool, counters: Option<(u64, u64)>) -> (r: (u64, u64))
    ensures
        r == if first_call {
            (0u64, 0u64)
        } else {
            match counters {
                Some(c) => c,
                None => (0u64, 0u64),
            }
        },
{
    if first_call {
        (0, 0)
    } else {
        match counters {
            Some(c) => c,
            None => (0, 0),
        }
    }
}

// ── Disks ─────────────────────────────────────────────────────────────────────

/// One filesystem as the system lists it.
#[derive(Debug, Clone, PartialEq, Eq)]
pub struct DiskSample {
    /// Mount point, with invalid UTF-8 replaced.
    pub mount: String,
    /// Whether the mount point is valid UTF-8 (so `mount` is exact).
    pub mount_is_utf8: bool,
    /// Total size in bytes.
    pub total_space: u64,
    /// Available bytes.
    pub available_space: u64,
}

/// What the disk widget reports.
#[derive(Debug, Clone, PartialEq, Eq)]
pub struct DiskReport {
    /// Used bytes of the watched mount point (0 when not found).
    pub used_bytes: u64,
    /// Total bytes of the watched mount point (0 when not found).
    pub total_bytes: u64,
    /// Every filesystem with a non-zero size, in listed order.
    pub all_disks: Vec<DiskEntry>,
}

/// `total - available`, or 0 when available exceeds total.
pub open spec fn used_of(total: u64, available: u64) -> u64 {
    if available <= total {
        (total - available) as u64
    } else {
        0
    }
}

/// The summary rows: filesystems with a non-zero size, in order.
pub open spec fn disk_rows(samples: Seq<DiskSample>) -> Seq<(Seq<char>, u64, u64)>
    decreases samples.len(),
{
    if samples.len() == 0 {
        Seq::empty()
    } else {
        let s = samples.last();
        disk_rows(samples.drop_last()) + if s.total_space > 0 {
            seq![(s.mount@, used_of(s.total_space, s.available_space), s.total_space)]
        } else {
            Seq::empty()
        }
    }
}

/// A summary row as plain values.
pub open spec fn entry_view(e: DiskEntry) -> (Seq<char>, u64, u64) {
    (e.mount@, e.used_bytes, e.total_bytes)
}

/// The watched filesystem: the first whose mount point is exactly `mount`.
pub open spec fn watched_disk(samples: Seq<DiskSample>, mount: Seq<char>) -> Option<int> {
    first_true(Seq::new(samples.len(), |i: int| samples[i].mount_is_utf8 && samples[i].mount@ == mount))
}

/// Summarise the listed filesystems for the disk widget watching `mount`.
pub fn disk_report(samples: &Vec<DiskSample>, mount: &str) -> (r: DiskReport)
    ensures
        r.all_disks@.map_values(|e: DiskEntry| entry_view(e)) == disk_rows(samples@),
        match watched_disk(samples@, mount@) {
            Some(i) => r.total_bytes == samples@[i].total_space && r.used_bytes == used_of(
                samples@[i].total_space,
                samples@[i].available_space,
            ),
            None => r.total_bytes == 0 && r.used_bytes == 0,
        },
{
    let target = chars_of(mount);
    let mut all: Vec<DiskEntry> = Vec::new();
    let mut flags: Vec<bool> = Vec::new();
    let mut i: usize = 0;
    while i < samples.len()
        invariant
            i <= samples.len(),
            target@ == mount@,
            all@.map_values(|e: DiskEntry| entry_view(e)) == disk_rows(samples@.take(i as int)),
            flags@.len() == i,
            forall|k: int|
                0 <= k < i ==> flags@[k] == (samples@[k].mount_is_utf8 && samples@[k].mount@ == mount@),
        decreases samples.len() - i,
    {
        let s = &samples[i];
        assert(samples@.take(i + 1).drop_last() =~= samples@.take(i as int));
        let used = if s.available_space <= s.total_space {
            s.total_space - s.available_space
        } else {
            0
        };
        if s.total_space > 0 {
            let ghost before = all@;
            all.push(DiskEntry { mount: s.mount.clone(), used_bytes: used, total_bytes: s.total_space });
            assert(all@.map_values(|e: DiskEntry| entry_view(e)) =~= before.map_values(
                |e: DiskEntry| entry_view(e),
            ).push(entry_view(all@[all@.len() - 1])));
        }
        assert(all@.map_values(|e: DiskEntry| entry_view(e)) =~= disk_rows(samples@.take(i + 1)));
        let m = chars_of(s.mount.as_str());
        flags.push(s.mount_is_utf8 && chars_eq(&m, &target));
        i = i + 1;
    }
    assert(samples@.take(samples@.len() as int) =~= samples@);
    assert(flags@ =~= Seq::new(
        samples@.len(),
        |k: int| samples@[k].mount_is_utf8 && samples@[k].mount@ == mount@,
    ));
    let (used_bytes, total_bytes) = match first_true_exec(&flags) {
        Some(k) => {
            let s = &samples[k];
            let used = if s.available_space <= s.total_space {
                s.total_space - s.available_space
            } else {
                0
            };
            (used, s.total_space)
        },
        None => (0, 0),
    };
    DiskReport { used_bytes, total_bytes, all_disks: all }
}


// ── Memory ────────────────────────────────────────────────────────────────────

/// A memory reading.
#[derive(Debug, Clone, Copy, PartialEq, Eq, Structural)]
pub struct MemoryReading {
    /// Used RAM in bytes.
    pub used_bytes: u64,
    /// Total RAM in bytes (never 0).
    pub total_bytes: u64,
    /// Used swap in bytes.
    pub swap_used: u64,
    /// Total swap in bytes.
    pub swap_total: u64,
}

/// Accept a memory sample; a total of zero means the system could not be
/// read and is refused (`None`).
pub fn memory_reading(used_bytes: u64, total_bytes: u64, swap_used: u64, swap_total: u64) -> (r:
    Option<MemoryReading>)
    ensures
        total_bytes == 0 ==> r is None,
        total_bytes != 0 ==> r == Some(MemoryReading { used_bytes, total_bytes, swap_used, swap_total }),
{
    if total_bytes == 0 {
        None
    } else {
        Some(MemoryReading { used_bytes, total_bytes, swap_used, swap_total })
    }
}

// ── Volume (plain `pactl` output) ─────────────────────────────────────────────

/// The volume percentage text in `pactl get-sink-volume` output: the field
/// after the first `/`, trimmed, trailing `%` removed.
pub open spec fn sink_volume_field(text: Seq<char>) -> Option<Seq<char>> {
    let i = find_char(text, '/');
    if i >= text.len() {
        None
    } else {
        let rest = text.skip(i + 1);
        Some(trim_end_char(trim(rest.take(find_char(rest, '/'))), '%'))
    }
}

/// Extract the volume percentage text from `pactl get-sink-volume` output.
pub fn sink_volume_text(text: &str) -> (r: Option<String>)
    ensures
        match (r, sink_volume_field(text@)) {
            (Some(s), Some(f)) => s@ == f,
            (None, None) => true,
            _ => false,
        },
{
    let v = chars_of(text);
    let n = v.len();
    assert(v@.subrange(0, n as int) =~= v@);
    let i = find_char_exec(&v, '/', 0, n);
    if i >= n {
        return None;
    }
    let j = find_char_exec(&v, '/', i + 1, n);
    assert(v@.skip(i + 1) =~= v@.subrange(i + 1, n as int));
    assert(v@.skip(i + 1).take(j - (i + 1)) =~= v@.subrange(i + 1, j as int));
    let (a, e) = trim_bounds(&v, i + 1, j);
    let e2 = trim_end_char_exec(&v, '%', a, e);
    let out = slice_of(&v, a, e2);
    Some(string_of(out.as_slice()))
}

/// Whether `pactl get-sink-mute` output reports the sink muted: it contains
/// `yes` in any case.
pub fn sink_is_muted(text: &str) -> (b: bool)
    ensures
        b == contains(lowercase(text@), "yes"@),
{
    let v = chars_of(text);
    let low = lowercase_chars(&v, 0, v.len());
    assert(v@.subrange(0, v@.len() as int) =~= v@);
    contains_exec(&low, &chars_of("yes"))
}

// ── Media (MPRIS over D-Bus) ──────────────────────────────────────────────────

/// The playback status an MPRIS `PlaybackStatus` property names:
/// `Playing`, `Paused`, anything else stopped.
pub open spec fn playback_status_of(s: Seq<char>) -> PlaybackStatus {
    if s == "Playing"@ {
        PlaybackStatus::Playing
    } else if s == "Paused"@ {
        PlaybackStatus::Paused
    } else {
        PlaybackStatus::Stopped
    }
}

/// Map an MPRIS `PlaybackStatus` string to a playback status.
pub fn parse_playback_status(s: &str) -> (r: PlaybackStatus)
    ensures
        r == playback_status_of(s@),
{
    let v = chars_of(s);
    if chars_eq(&v, &chars_of("Playing")) {
        PlaybackStatus::Playing
    } else if chars_eq(&v, &chars_of("Paused")) {
        PlaybackStatus::Paused
    } else {
        PlaybackStatus::Stopped
    }
}

/// The first bus name that is an MPRIS player (`org.mpris.MediaPlayer2.` prefix).
pub open spec fn mpris_player_choice(names: Seq<Seq<char>>) -> Option<int> {
    first_true(Seq::new(names.len(), |i: int| starts_with(names[i], "org.mpris.MediaPlayer2."@)))
}

/// Find the first MPRIS media player among the session bus names.
pub fn find_mpris_player(names: &Vec<String>) -> (r: Option<String>)
    ensures
        match mpris_player_choice(views(names@)) {
            Some(i) => r matches Some(n) && n@ == names@[i]@,
            None => r is None,
        },
{
    let ghost ns = views(names@);
    let prefix = chars_of("org.mpris.MediaPlayer2.");
    let mut flags: Vec<bool> = Vec::new();
    let mut i: usize = 0;
    while i < names.len()
        invariant
            i <= names.len(),
            ns == views(names@),
            prefix@ == "org.mpris.MediaPlayer2."@,
            flags@.len() == i,
            forall|k: int| 0 <= k < i ==> flags@[k] == starts_with(ns[k], "org.mpris.MediaPlayer2."@),
        decreases names.len() - i,
    {
        let c = chars_of(names[i].as_str());
        assert(ns[i as int] == names@[i as int]@);
        flags.push(has_prefix(&c, &prefix));
        i = i + 1;
    }
    assert(flags@ =~= Seq::new(ns.len(), |k: int| starts_with(ns[k], "org.mpris.MediaPlayer2."@)));
    match first_true_exec(&flags) {
        Some(k) => Some(names[k].clone()),
        None => None,
    }
}

/// The pieces joined with `sep` between them.
pub open spec fn joined(parts: Seq<Seq<char>>, sep: Seq<char>) -> Seq<char>
    decreases parts.len(),
{
    if parts.len() == 0 {
        Seq::empty()
    } else if parts.len() == 1 {
        parts[0]
    } else {
        joined(parts.drop_last(), sep) + sep + parts.last()
    }
}

/// The artists of a track as shown: joined with `", "`.
pub fn join_artists(parts: &Vec<String>) -> (r: String)
    ensures
        r@ == joined(views(parts@), ", "@),
{
    let ghost ps = views(parts@);
    let sep = chars_of(", ");
    let mut out: Vec<char> = Vec::new();
    let mut i: usize = 0;
    while i < parts.len()
        invariant
            i <= parts.len(),
            ps == views(parts@),
            sep@ == ", "@,
            out@ == joined(ps.take(i as int), ", "@),
        decreases parts.len() - i,
    {
        let piece = chars_of(parts[i].as_str());
        assert(ps[i as int] == parts@[i as int]@);
        assert(ps.take(i + 1).drop_last() =~= ps.take(i as int));
        assert(piece@.skip(0) =~= piece@);
        assert(sep@.skip(0) =~= sep@);
        if i == 0 {
            out = piece;
            assert(ps.take(1)[0] == ps[0]);
        } else {
            let with_sep = concat_from(&out, &sep, 0);
            out = concat_from(&with_sep, &piece, 0);
        }
        i = i + 1;
    }
    assert(ps.take(ps.len() as int) =~= ps);
    string_of(out.as_slice())
}

/// Now-playing information of a media player.
#[derive(Debug, Clone, PartialEq, Eq)]
pub struct MediaInfo {
    /// Track title (empty when unknown).
    pub title: String,
    /// Track artists joined with `", "` (empty when unknown).
    pub artist: String,
    /// Playback status.
    pub status: PlaybackStatus,
    /// Whether the player can skip forward.
    pub can_go_next: bool,
    /// Whether the player can skip back.
    pub can_go_previous: bool,
}

impl MediaInfo {
    /// What is shown when no player is present: stopped, no track.
    pub fn stopped() -> (m: MediaInfo)
        ensures
            m.title@.len() == 0,
            m.artist@.len() == 0,
            m.status == PlaybackStatus::Stopped,
            !m.can_go_next,
            !m.can_go_previous,
    {
        MediaInfo {
            title: String::new(),
            artist: String::new(),
            status: PlaybackStatus::Stopped,
            can_go_next: false,
            can_go_previous: false,
        }
    }
}

/// Build the now-playing information from a player's properties: its
/// `PlaybackStatus` text (empty when absent), its skip capabilities, and the
/// `xesam:title` / `xesam:artist` metadata when present.
pub fn media_info(
    status_text: &str,
    can_go_next: bool,
    can_go_previous: bool,
    title: Option<String>,
    artists: Option<Vec<String>>,
) -> (m: MediaInfo)
    ensures
        m.status == playback_status_of(status_text@),
        m.can_go_next == can_go_next,
        m.can_go_previous == can_go_previous,
        m.title@ == match title {
            Some(t) => t@,
            None => Seq::<char>::empty(),
        },
        m.artist@ == match artists {
            Some(a) => joined(views(a@), ", "@),
            None => Seq::<char>::empty(),
        },
{
    let status = parse_playback_status(status_text);
    let title = match title {
        Some(t) => t,
        None => String::new(),
    };
    let artist = match &artists {
        Some(a) => join_artists(a),
        None => String::new(),
    };
    MediaInfo { title, artist, status, can_go_next, can_go_previous }
}

// ── Weather ───────────────────────────────────────────────────────────────────

/// The unit name the weather service expects.
pub open spec fn unit_param(unit: TempUnit) -> Seq<char> {
    match unit {
        TempUnit::Celsius => "celsius"@,
        TempUnit::Fahrenheit => "fahrenheit"@,
    }
}

/// The forecast request address for a position (given as the decimal text
/// of its coordinates) and a temperature unit.
pub open spec fn forecast_url(lat: Seq<char>, lon: Seq<char>, unit: TempUnit) -> Seq<char> {
    "https://api.open-meteo.com/v1/forecast?latitude="@ + lat + "&longitude="@ + lon
        + "&current=temperature_2m,weather_code,wind_speed_10m,relative_humidity_2m&temperature_unit="@
        + unit_param(unit)
}

/// Build the Open-Meteo current-weather request for the coordinates (as
/// decimal text) and temperature unit.
pub fn weather_url(lat: &str, lon: &str, unit: TempUnit) -> (r: String)
    ensures
        r@ == forecast_url(lat@, lon@, unit),
{
    let head = chars_of("https://api.open-meteo.com/v1/forecast?latitude=");
    let la = chars_of(lat);
    let lo_key = chars_of("&longitude=");
    let lo = chars_of(lon);
    let tail = chars_of(
        "&current=temperature_2m,weather_code,wind_speed_10m,relative_humidity_2m&temperature_unit=",
    );
    let u = match unit {
        TempUnit::Celsius => chars_of("celsius"),
        TempUnit::Fahrenheit => chars_of("fahrenheit"),
    };
    let a = concat_from(&head, &la, 0);
    let b = concat_from(&a, &lo_key, 0);
    let c = concat_from(&b, &lo, 0);
    let d = concat_from(&c, &tail, 0);
    let e = concat_from(&d, &u, 0);
    assert(la@.skip(0) =~= la@);
    assert(lo_key@.skip(0) =~= lo_key@);
    assert(lo@.skip(0) =~= lo@);
    assert(tail@.skip(0) =~= tail@);
    assert(u@.skip(0) =~= u@);
    string_of(e.as_slice())
}


/// An exact copy of the information.
fn copy_info(m: &MediaInfo) -> (r: MediaInfo)
    ensures
        r == *m,
{
    MediaInfo {
        title: m.title.clone(),
        artist: m.artist.clone(),
        status: m.status,
        can_go_next: m.can_go_next,
        can_go_previous: m.can_go_previous,
    }
}

/// What one media refresh found on the session bus.
#[derive(Debug, Clone, PartialEq, Eq)]
pub enum MediaObservation {
    /// No session bus connection could be made.
    NoSession,
    /// Connected, but no MPRIS player is running.
    NoPlayer,
    /// A player exists but its properties could not be read.
    PropertiesUnavailable,
    /// The player's now-playing information.
    Playing(MediaInfo),
}

/// The media provider's memory: the last information it reported.
#[derive(Debug, Clone, PartialEq, Eq)]
pub struct MediaTracker {
    /// Last reported information, if any.
    pub last: Option<MediaInfo>,
}

/// Whether `m` is the stopped, empty information.
pub open spec fn is_stopped_info(m: MediaInfo) -> bool {
    &&& m.title@.len() == 0
    &&& m.artist@.len() == 0
    &&& m.status == PlaybackStatus::Stopped
    &&& !m.can_go_next
    &&& !m.can_go_previous
}

impl MediaTracker {
    /// A provider that has reported nothing yet.
    pub fn new() -> (t: MediaTracker)
        ensures
            t.last is None,
    {
        MediaTracker { last: None }
    }

    /// Decide what a refresh reports: stopped without a session (memory
    /// kept); stopped, and remembered, without a player; the last report
    /// (or stopped) when the player's properties cannot be read; otherwise
    /// the player's information, remembered.
    pub fn observe(&mut self, obs: MediaObservation) -> (r: MediaInfo)
        ensures
            obs is NoSession ==> is_stopped_info(r) && final(self).last == old(self).last,
            obs is NoPlayer ==> is_stopped_info(r) && final(self).last == Some(r),
            obs is PropertiesUnavailable ==> final(self).last == old(self).last && match old(self).last {
                Some(m) => r == m,
                None => is_stopped_info(r),
            },
            obs matches MediaObservation::Playing(info) ==> r == info && final(self).last == Some(info),
    {
        match &obs {
            MediaObservation::NoSession => {
                let s = MediaInfo::stopped();
                s
            },
            MediaObservation::NoPlayer => {
                let s = MediaInfo::stopped();
                self.last = Some(copy_info(&s));
                s
            },
            MediaObservation::PropertiesUnavailable => match &self.last {
                Some(m) => copy_info(m),
                None => MediaInfo::stopped(),
            },
            MediaObservation::Playing(info) => {
                self.last = Some(copy_info(info));
                copy_info(info)
            },
        }
    }
}

// ── Brightness ────────────────────────────────────────────────────────────────

/// Accept a backlight reading: the current and maximum raw levels, refused
/// (`None`) when the maximum is zero.
pub fn brightness_reading(current: Option<u32>, max: Option<u32>) -> (r: Option<(u32, u32)>)
    ensures
        r == match (current, max) {
            (Some(c), Some(m)) => if m == 0 {
                None
            } else {
                Some((c, m))
            },
            _ => None,
        },
{
    match (current, max) {
        (Some(c), Some(m)) => if m == 0 {
            None
        } else {
            Some((c, m))
        },
        _ => None,
    }
}


// ── Battery readings ──────────────────────────────────────────────────────────

/// What the battery provider reports: the charge percentage, if readable,
/// and the charging status.
#[derive(Debug, Clone, Copy, PartialEq, Eq, Structural)]
pub struct BatteryReading {
    /// Charge percentage from the `capacity` file.
    pub capacity: Option<u32>,
    /// Charging status from the `status` file.
    pub status: BatteryStatus,
}

/// The report of a machine without a battery: no charge, full.
pub fn no_battery() -> (r: BatteryReading)
    ensures
        r == (BatteryReading { capacity: None, status: BatteryStatus::Full }),
{
    BatteryReading { capacity: None, status: BatteryStatus::Full }
}

/// The reading of one power-supply entry from the text of its `type`,
/// `capacity` and `status` files (`None` where unreadable): a battery
/// reading when the type is `Battery`, `None` otherwise.
pub open spec fn supply_battery(
    type_text: Option<Seq<char>>,
    capacity_text: Option<Seq<char>>,
    status_text: Option<Seq<char>>,
) -> Option<BatteryReading> {
    match type_text {
        Some(t) => if trim(t) == "Battery"@ {
            Some(
                BatteryReading {
                    capacity: match capacity_text {
                        Some(c) => match parse_unsigned(trim(c), u32::MAX as nat) {
                            Some(n) => Some(n as u32),
                            None => None,
                        },
                        None => None,
                    },
                    status: battery_status_of(status_text),
                },
            )
        } else {
            None
        },
        None => None,
    }
}

/// Read one power-supply entry from its `type`, `capacity` and `status`
/// files (`None` where unreadable): a reading when it is a battery, `None`
/// otherwise (an AC adapter, or no type).
pub fn battery_from_supply(type_text: Option<&str>, capacity_text: Option<&str>, status_text: Option<&str>) -> (r:
    Option<BatteryReading>)
    ensures
        r == supply_battery(str_view(type_text), str_view(capacity_text), str_view(status_text)),
{
    match type_text {
        Some(t) => if is_battery_type(t) {
            let capacity = match capacity_text {
                Some(c) => parse_sysfs_u32(c),
                None => None,
            };
            Some(BatteryReading { capacity, status: parse_battery_status(status_text) })
        } else {
            None
        },
        None => None,
    }
}

/// The files of one entry of the power-supply directory, as read: the text
/// of `type`, `capacity` and `status`, `None` where a file is unreadable.
#[derive(Debug, Clone, PartialEq, Eq)]
pub struct SupplyFiles {
    /// Text of the `type` file.
    pub type_text: Option<String>,
    /// Text of the `capacity` file.
    pub capacity_text: Option<String>,
    /// Text of the `status` file.
    pub status_text: Option<String>,
}

/// What listing the power-supply directory gave.
#[derive(Debug, Clone, PartialEq, Eq)]
pub enum PowerSupplyListing {
    /// The directory does not exist (a machine without power supplies).
    Missing,
    /// The directory exists but could not be listed.
    Unreadable,
    /// The entries, in listing order.
    Entries(Vec<SupplyFiles>),
}

/// Why the battery could not be read.
#[derive(Debug, Clone, Copy, PartialEq, Eq, Structural)]
pub enum BatteryError {
    /// Listing the power-supply directory failed for a reason other than
    /// its absence.
    DirectoryUnreadable,
}

/// The reading of one listed entry.
pub open spec fn supply_files_battery(f: SupplyFiles) -> Option<BatteryReading> {
    supply_battery(opt_view(f.type_text), opt_view(f.capacity_text), opt_view(f.status_text))
}

/// The first battery among the entries, in listing order; no battery when
/// none of them is one.
pub open spec fn first_battery_of(entries: Seq<SupplyFiles>) -> BatteryReading
    decreases entries.len(),
{
    if entries.len() == 0 {
        BatteryReading { capacity: None, status: BatteryStatus::Full }
    } else {
        match supply_files_battery(entries[0]) {
            Some(b) => b,
            None => first_battery_of(entries.drop_first()),
        }
    }
}

/// What a battery refresh reports for a listing of the power-supply
/// directory: no battery when it is missing, an error when it could not be
/// listed, and otherwise the first battery entry.
pub open spec fn battery_report(listing: PowerSupplyListing) -> Result<BatteryReading, BatteryError> {
    match listing {
        PowerSupplyListing::Missing => Ok(BatteryReading { capacity: None, status: BatteryStatus::Full }),
        PowerSupplyListing::Unreadable => Err(BatteryError::DirectoryUnreadable),
        PowerSupplyListing::Entries(e) => Ok(first_battery_of(e@)),
    }
}

/// Borrow the text of an optional string.
fn opt_as_str(o: &Option<String>) -> (r: Option<&str>)
    ensures
        str_view(r) == opt_view(*o),
{
    match o {
        Some(s) => Some(s.as_str()),
        None => None,
    }
}

/// The first battery among the listed entries, in listing order; no battery
/// when none of them is one.
pub fn first_battery(entries: &Vec<SupplyFiles>) -> (r: BatteryReading)
    ensures
        r == first_battery_of(entries@),
{
    let mut i: usize = 0;
    assert(entries@.skip(0) =~= entries@);
    while i < entries.len()
        invariant
            i <= entries.len(),
            first_battery_of(entries@) == first_battery_of(entries@.skip(i as int)),
        decreases entries.len() - i,
    {
        let f = &entries[i];
        let found = battery_from_supply(
            opt_as_str(&f.type_text),
            opt_as_str(&f.capacity_text),
            opt_as_str(&f.status_text),
        );
        assert(entries@.skip(i as int)[0] == entries@[i as int]);
        assert(entries@.skip(i as int).drop_first() =~= entries@.skip(i + 1));
        match found {
            Some(b) => {
                return b;
            },
            None => {},
        }
        i = i + 1;
    }
    no_battery()
}

/// What a battery refresh reports for a listing of the power-supply
/// directory: no battery when it is missing, the error when it could not be
/// listed, and otherwise the first battery entry, or no battery.
pub fn read_power_supplies(listing: &PowerSupplyListing) -> (r: Result<BatteryReading, BatteryError>)
    ensures
        r == battery_report(*listing),
{
    match listing {
        PowerSupplyListing::Missing => Ok(no_battery()),
        PowerSupplyListing::Unreadable => Err(BatteryError::DirectoryUnreadable),
        PowerSupplyListing::Entries(e) => Ok(first_battery(e)),
    }
}

/// The battery provider's memory of its last good reading.
#[derive(Debug, Clone, Copy, PartialEq, Eq, Structural)]
pub struct BatteryTracker {
    /// Last reading that succeeded.
    pub last: Option<BatteryReading>,
}

impl BatteryTracker {
    /// A provider with no reading yet.
    pub fn new() -> (t: BatteryTracker)
        ensures
            t.last is None,
    {
        BatteryTracker { last: None }
    }

    /// Report a refresh from a listing of the power-supply directory: a
    /// reading is reported and remembered; a directory that could not be
    /// listed is reported as the error, and the last reading is kept.
    pub fn observe(&mut self, listing: &PowerSupplyListing) -> (r: Result<BatteryReading, BatteryError>)
        ensures
            r == battery_report(*listing),
            final(self).last == match r {
                Ok(b) => Some(b),
                Err(_) => old(self).last,
            },
    {
        let r = read_power_supplies(listing);
        match r {
            Ok(b) => {
                self.last = Some(b);
            },
            Err(_) => {},
        }
        r
    }
}

} // verus!

