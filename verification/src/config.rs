//! The user configuration: its model, its defaults, and the rules that bring
//! a configuration read from disk into range.
use vstd::prelude::*;
use crate::device_map::{str_eq, DeviceMap};
use crate::text;
use crate::text::{chars_of, parse_u32_chars, string_from_chars, trim_chars};

verus! {

/// The smallest volume cap, in percent.
pub const CAP_MIN: u32 = 10;
/// The largest volume cap, in percent.
pub const CAP_MAX: u32 = 100;
/// The smallest mouse-wheel step, in percent.
pub const SCROLL_STEP_MIN: u32 = 1;
/// The largest mouse-wheel step, in percent.
pub const SCROLL_STEP_MAX: u32 = 20;
/// The largest startup volume, in percent.
pub const VOLUME_MAX: u32 = 100;

/// `v` brought into `lo..=hi`.
pub open spec fn clamp(v: u32, lo: u32, hi: u32) -> u32 {
    if v < lo {
        lo
    } else if v > hi {
        hi
    } else {
        v
    }
}

/// `v` brought into `lo..=hi` (what `u32::clamp` computes).
pub fn clamp_u32(v: u32, lo: u32, hi: u32) -> (r: u32)
    requires
        lo <= hi,
    ensures
        r == clamp(v, lo, hi),
{
    if v < lo {
        lo
    } else if v > hi {
        hi
    } else {
        v
    }
}

/// Settings that apply to one audio device.
#[derive(Debug, Clone, Copy, PartialEq, Eq, Structural)]
pub struct DeviceConfig {
    pub force_sw_volume: bool,
    pub cap_percent: u32,
}

impl DeviceConfig {
    /// These settings with the cap brought into range.
    pub open spec fn sanitized(self) -> DeviceConfig {
        DeviceConfig {
            force_sw_volume: self.force_sw_volume,
            cap_percent: clamp(self.cap_percent, CAP_MIN, CAP_MAX),
        }
    }

    /// Brings the cap into range.
    pub fn sanitize(&mut self)
        ensures
            *final(self) == old(self).sanitized(),
    {
        self.cap_percent = clamp_u32(self.cap_percent, CAP_MIN, CAP_MAX);
    }
}

impl Default for DeviceConfig {
    fn default() -> (r: Self)
        ensures
            r == (DeviceConfig { force_sw_volume: false, cap_percent: 100 }),
    {
        DeviceConfig { force_sw_volume: false, cap_percent: 100 }
    }
}

/// The volume-cap presets offered when the configuration names none.
pub open spec fn default_presets() -> Seq<u32> {
    seq![100, 80, 60, 40]
}

/// The volume-cap presets offered when the configuration names none.
pub fn default_cap_presets() -> (r: Vec<u32>)
    ensures
        r@ == default_presets(),
{
    vec![100, 80, 60, 40]
}

/// The mouse-wheel step used when the configuration names none.
pub fn default_scroll_step() -> (r: u32)
    ensures
        r == 2,
{
    2
}

/// The night-mode cap used when the configuration names none.
pub fn default_night_cap() -> (r: u32)
    ensures
        r == 40,
{
    40
}

/// The value of a flag that the configuration leaves out and that is on by default.
pub fn default_true() -> (r: bool)
    ensures
        r,
{
    true
}

/// Each value of `s` is larger than every value after it.
pub open spec fn strictly_descending(s: Seq<u32>) -> bool {
    forall|i: int, j: int| 0 <= i < j < s.len() ==> s[i] > s[j]
}

/// `a` and `b` hold the same values, however often and in whatever order.
pub open spec fn same_values(a: Seq<u32>, b: Seq<u32>) -> bool {
    forall|x: u32| a.contains(x) <==> b.contains(x)
}

/// The distinct values of `s`, largest first.
pub open spec fn descending_distinct(s: Seq<u32>) -> Seq<u32> {
    choose|r: Seq<u32>| strictly_descending(r) && same_values(r, s)
}

/// Each preset brought into the cap range.
pub open spec fn clamped_presets(s: Seq<u32>) -> Seq<u32> {
    s.map_values(|p: u32| clamp(p, CAP_MIN, CAP_MAX))
}

/// The presets kept from `s`: its distinct values brought into the cap range,
/// largest first; the default presets when `s` is empty.
pub open spec fn sanitized_presets(s: Seq<u32>) -> Seq<u32> {
    if s.len() == 0 {
        default_presets()
    } else {
        descending_distinct(clamped_presets(s))
    }
}

/// Two strictly descending sequences with the same values are equal.
pub proof fn lemma_descending_unique(a: Seq<u32>, b: Seq<u32>)
    requires
        strictly_descending(a),
        strictly_descending(b),
        same_values(a, b),
    ensures
        a == b,
    decreases a.len(),
{
    if a.len() == 0 {
        if b.len() > 0 {
            assert(b.contains(b[0]));
        }
        assert(a =~= b);
    } else {
        assert(a.contains(a[0]));
        assert(b.len() > 0);
        assert(b.contains(b[0]));
        let k = choose|k: int| 0 <= k < b.len() && b[k] == a[0];
        let m = choose|m: int| 0 <= m < a.len() && a[m] == b[0];
        assert(a[0] == b[0]) by {
            if k > 0 {
                assert(b[0] > b[k]);
            }
            if m > 0 {
                assert(a[0] > a[m]);
            }
        }
        let a1 = a.drop_first();
        let b1 = b.drop_first();
        assert forall|x: u32| a1.contains(x) implies b1.contains(x) by {
            let i = choose|i: int| 0 <= i < a1.len() && a1[i] == x;
            assert(a[i + 1] == x);
            assert(a.contains(x));
            let j = choose|j: int| 0 <= j < b.len() && b[j] == x;
            assert(a[0] > a[i + 1]);
            assert(j != 0);
            assert(b1[j - 1] == x);
        }
        assert forall|x: u32| b1.contains(x) implies a1.contains(x) by {
            let i = choose|i: int| 0 <= i < b1.len() && b1[i] == x;
            assert(b[i + 1] == x);
            assert(b.contains(x));
            let j = choose|j: int| 0 <= j < a.len() && a[j] == x;
            assert(b[0] > b[i + 1]);
            assert(j != 0);
            assert(a1[j - 1] == x);
        }
        lemma_descending_unique(a1, b1);
        assert(a =~= seq![a[0]] + a1);
        assert(b =~= seq![b[0]] + b1);
    }
}

/// A strictly descending sequence with the values of `s` is what
/// `descending_distinct` names.
pub proof fn lemma_descending_distinct_is(r: Seq<u32>, s: Seq<u32>)
    requires
        strictly_descending(r),
        same_values(r, s),
    ensures
        descending_distinct(s) == r,
{
    let c = descending_distinct(s);
    assert(strictly_descending(c) && same_values(c, s));
    assert(same_values(c, r));
    lemma_descending_unique(c, r);
}

/// Inserts `p` into the strictly descending `out`, unless it is already there.
fn insert_descending(out: &mut Vec<u32>, p: u32)
    requires
        strictly_descending(old(out)@),
    ensures
        strictly_descending(final(out)@),
        forall|x: u32| final(out)@.contains(x) <==> (old(out)@.contains(x) || x == p),
{
    let mut k: usize = 0;
    while k < out.len() && out[k] > p
        invariant
            k <= out.len(),
            forall|j: int| 0 <= j < k ==> out@[j] > p,
        decreases out.len() - k,
    {
        k += 1;
    }
    if k < out.len() && out[k] == p {
        assert(out@.contains(p));
        return;
    }
    let ghost before = out@;
    out.insert(k, p);
    proof {
        before.insert_ensures(k as int, p);
        let after = out@;
        assert forall|i: int, j: int| 0 <= i < j < after.len() implies after[i] > after[j] by {
            if j < k {
            } else if j == k {
            } else if i < k {
                assert(after[j] == before[j - 1]);
                if j - 1 > k {
                    assert(before[k as int] > before[j - 1]);
                }
            } else if i == k {
                assert(after[j] == before[j - 1]);
                if j - 1 > k {
                    assert(before[k as int] > before[j - 1]);
                }
            } else {
                assert(after[i] == before[i - 1]);
                assert(after[j] == before[j - 1]);
            }
        }
        assert forall|x: u32| after.contains(x) <==> (before.contains(x) || x == p) by {
            if after.contains(x) {
                let i = choose|i: int| 0 <= i < after.len() && after[i] == x;
                if i < k {
                    assert(before[i] == x);
                } else if i > k {
                    assert(before[i - 1] == x);
                }
            }
            if before.contains(x) {
                let i = choose|i: int| 0 <= i < before.len() && before[i] == x;
                if i < k {
                    assert(after[i] == x);
                } else {
                    assert(after[i + 1] == x);
                }
            }
            if x == p {
                assert(after[k as int] == x);
            }
        }
    }
}

/// The presets to offer: the distinct values of `presets` brought into the
/// cap range, largest first; the default presets when `presets` is empty.
pub fn sanitize_presets(presets: &Vec<u32>) -> (r: Vec<u32>)
    ensures
        r@ == sanitized_presets(presets@),
{
    if presets.len() == 0 {
        return default_cap_presets();
    }
    let mut out: Vec<u32> = Vec::new();
    let mut i: usize = 0;
    while i < presets.len()
        invariant
            i <= presets.len(),
            strictly_descending(out@),
            same_values(out@, clamped_presets(presets@.take(i as int))),
        decreases presets.len() - i,
    {
        let p = clamp_u32(presets[i], CAP_MIN, CAP_MAX);
        insert_descending(&mut out, p);
        proof {
            let prev = clamped_presets(presets@.take(i as int));
            let next = clamped_presets(presets@.take(i + 1));
            assert(next =~= prev.push(p));
            assert forall|x: u32| next.contains(x) <==> (prev.contains(x) || x == p) by {
                if next.contains(x) {
                    let j = choose|j: int| 0 <= j < next.len() && next[j] == x;
                    if j < prev.len() {
                        assert(prev[j] == x);
                    }
                }
                if prev.contains(x) {
                    let j = choose|j: int| 0 <= j < prev.len() && prev[j] == x;
                    assert(next[j] == x);
                }
                if x == p {
                    assert(next[i as int] == x);
                }
            }
        }
        i += 1;
    }
    proof {
        assert(presets@.take(presets.len() as int) =~= presets@);
        lemma_descending_distinct_is(out@, clamped_presets(presets@));
    }
    out
}

/// The characters of each name.
pub open spec fn names_view(names: Seq<String>) -> Seq<Seq<char>> {
    names.map_values(|s: String| s@)
}

/// The characters of an optional string.
pub open spec fn opt_str_view(o: Option<String>) -> Option<Seq<char>> {
    match o {
        Some(s) => Some(s@),
        None => None,
    }
}

/// The characters of each name of an optional list.
pub open spec fn opt_names_view(o: Option<Vec<String>>) -> Option<Seq<Seq<char>>> {
    match o {
        Some(v) => Some(names_view(v@)),
        None => None,
    }
}

/// The device names kept from `names`: each trimmed, empty ones dropped, and
/// each name only at its first occurrence.
pub open spec fn cleaned_names(names: Seq<Seq<char>>) -> Seq<Seq<char>>
    decreases names.len(),
{
    if names.len() == 0 {
        Seq::empty()
    } else {
        let kept = cleaned_names(names.drop_last());
        let t = text::trim(names.last());
        if t.len() == 0 || kept.contains(t) {
            kept
        } else {
            kept.push(t)
        }
    }
}

/// The position of the first `c` in `s`, if any.
pub open spec fn first_index_of(s: Seq<char>, c: char) -> Option<int>
    decreases s.len(),
{
    if s.len() == 0 {
        None
    } else if s[0] == c {
        Some(0)
    } else {
        match first_index_of(s.drop_first(), c) {
            Some(i) => Some(i + 1),
            None => None,
        }
    }
}

/// The minutes after midnight that a `HH:MM` time names: the text before the
/// first `:` and the text after it, each trimmed, read as numbers, with the hour
/// at most 23 and the minute at most 59.
pub open spec fn hm_minutes(s: Seq<char>) -> Option<u32> {
    match first_index_of(s, ':') {
        None => None,
        Some(i) => match (
            text::parse_u32(text::trim(s.take(i))),
            text::parse_u32(text::trim(s.skip(i + 1))),
        ) {
            (Some(h), Some(m)) => if h > 23 || m > 59 {
                None
            } else {
                Some((h * 60 + m) as u32)
            },
            _ => None,
        },
    }
}

/// The general settings, with strings and lists as character sequences.
pub struct GeneralView {
    pub autostart: bool,
    pub cap_presets: Seq<u32>,
    pub scroll_step_percent: u32,
    pub night_start: Option<Seq<char>>,
    pub night_end: Option<Seq<char>>,
    pub night_cap: u32,
    pub night_enabled: bool,
    pub startup_volume: Option<u32>,
    pub pin_device: Option<Seq<char>>,
    pub devices: Option<Seq<Seq<char>>>,
    pub language: Option<Seq<char>>,
}

/// The general settings used when the configuration names none.
pub open spec fn default_general() -> GeneralView {
    GeneralView {
        autostart: false,
        cap_presets: default_presets(),
        scroll_step_percent: 2,
        night_start: None,
        night_end: None,
        night_cap: 40,
        night_enabled: true,
        startup_volume: None,
        pin_device: None,
        devices: None,
        language: None,
    }
}

impl GeneralView {
    /// These settings brought into range: presets as `sanitized_presets` keeps
    /// them, the wheel step in 1..=20, the night cap in 10..=100, the startup
    /// volume at most 100, and the device list as `cleaned_names` keeps it.
    pub open spec fn sanitized(self) -> GeneralView {
        GeneralView {
            cap_presets: sanitized_presets(self.cap_presets),
            scroll_step_percent: clamp(self.scroll_step_percent, SCROLL_STEP_MIN, SCROLL_STEP_MAX),
            night_cap: clamp(self.night_cap, CAP_MIN, CAP_MAX),
            startup_volume: match self.startup_volume {
                Some(v) => Some(clamp(v, 0, VOLUME_MAX)),
                None => None,
            },
            devices: match self.devices {
                Some(names) => Some(cleaned_names(names)),
                None => None,
            },
            ..self
        }
    }

    /// Whether every setting is in range: the presets distinct, largest first
    /// and in the cap range, the wheel step, night cap and startup volume in
    /// range, and the device names trimmed, non-empty and distinct.
    pub open spec fn is_sanitized(self) -> bool {
        &&& self.cap_presets.len() > 0
        &&& strictly_descending(self.cap_presets)
        &&& forall|i: int|
            0 <= i < self.cap_presets.len() ==> CAP_MIN <= #[trigger] self.cap_presets[i] <= CAP_MAX
        &&& SCROLL_STEP_MIN <= self.scroll_step_percent <= SCROLL_STEP_MAX
        &&& CAP_MIN <= self.night_cap <= CAP_MAX
        &&& (self.startup_volume matches Some(v) ==> v <= VOLUME_MAX)
        &&& (self.devices matches Some(names) ==> {
            &&& names.no_duplicates()
            &&& forall|i: int|
                0 <= i < names.len() ==> (#[trigger] names[i]).len() > 0 && text::trim(names[i])
                    == names[i]
        })
    }

    /// The night window in minutes after midnight, when night mode is on and
    /// both ends are valid times.
    pub open spec fn night_window(self) -> Option<(u32, u32)> {
        if !self.night_enabled {
            None
        } else {
            match (self.night_start, self.night_end) {
                (Some(a), Some(b)) => match (hm_minutes(a), hm_minutes(b)) {
                    (Some(x), Some(y)) => Some((x, y)),
                    _ => None,
                },
                _ => None,
            }
        }
    }
}

/// Settings that apply whatever the device.
pub struct GeneralConfig {
    pub autostart: bool,
    pub cap_presets: Vec<u32>,
    pub scroll_step_percent: u32,
    pub night_start: Option<String>,
    pub night_end: Option<String>,
    pub night_cap: u32,
    pub night_enabled: bool,
    pub startup_volume: Option<u32>,
    pub pin_device: Option<String>,
    /// When set, the bridge only runs while the target device is in this list.
    /// `None` means every device is allowed.
    pub devices: Option<Vec<String>>,
    pub language: Option<String>,
}

impl View for GeneralConfig {
    type V = GeneralView;

    open spec fn view(&self) -> GeneralView {
        GeneralView {
            autostart: self.autostart,
            cap_presets: self.cap_presets@,
            scroll_step_percent: self.scroll_step_percent,
            night_start: opt_str_view(self.night_start),
            night_end: opt_str_view(self.night_end),
            night_cap: self.night_cap,
            night_enabled: self.night_enabled,
            startup_volume: self.startup_volume,
            pin_device: opt_str_view(self.pin_device),
            devices: opt_names_view(self.devices),
            language: opt_str_view(self.language),
        }
    }
}

impl Default for GeneralConfig {
    fn default() -> (r: Self)
        ensures
            r@ == default_general(),
    {
        GeneralConfig {
            autostart: false,
            cap_presets: default_cap_presets(),
            scroll_step_percent: default_scroll_step(),
            night_start: None,
            night_end: None,
            night_cap: default_night_cap(),
            night_enabled: default_true(),
            startup_volume: None,
            pin_device: None,
            devices: None,
            language: None,
        }
    }
}

/// The device names kept from `names`: each trimmed, empty ones dropped, and
/// each name only at its first occurrence.
pub fn clean_names(names: &Vec<String>) -> (r: Vec<String>)
    ensures
        names_view(r@) == cleaned_names(names_view(names@)),
{
    let ghost all = names_view(names@);
    let mut out: Vec<String> = Vec::new();
    let mut i: usize = 0;
    while i < names.len()
        invariant
            i <= names.len(),
            all == names_view(names@),
            names_view(out@) == cleaned_names(all.take(i as int)),
        decreases names.len() - i,
    {
        let t = trim_chars(&chars_of(names[i].as_str()));
        assert(all.take(i + 1).drop_last() =~= all.take(i as int));
        assert(all.take(i + 1).last() == names@[i as int]@);
        if t.len() > 0 {
            let ts = string_from_chars(&t);
            let mut seen = false;
            let mut j: usize = 0;
            while j < out.len()
                invariant
                    j <= out.len(),
                    seen == exists|k: int| 0 <= k < j && out@[k]@ == ts@,
                decreases out.len() - j,
            {
                if out[j] == ts {
                    seen = true;
                }
                j += 1;
            }
            proof {
                let kept = names_view(out@);
                if seen {
                    let k = choose|k: int| 0 <= k < out.len() && out@[k]@ == ts@;
                    assert(kept[k] == ts@);
                } else {
                    assert forall|k: int| 0 <= k < kept.len() implies kept[k] != ts@ by {
                        assert(kept[k] == out@[k]@);
                    }
                }
            }
            if !seen {
                out.push(ts);
                assert(names_view(out@) =~= cleaned_names(all.take(i as int)).push(t@));
            }
        }
        i += 1;
    }
    assert(all.take(names.len() as int) =~= all);
    out
}

/// The characters of `v` from `lo` up to `hi`.
fn sub_chars(v: &Vec<char>, lo: usize, hi: usize) -> (r: Vec<char>)
    requires
        lo <= hi <= v.len(),
    ensures
        r@ == v@.subrange(lo as int, hi as int),
{
    let mut r: Vec<char> = Vec::new();
    let mut k: usize = lo;
    while k < hi
        invariant
            lo <= k <= hi <= v.len(),
            r@ == v@.subrange(lo as int, k as int),
        decreases hi - k,
    {
        r.push(v[k]);
        k += 1;
        assert(r@ =~= v@.subrange(lo as int, k as int));
    }
    r
}

/// `first_index_of` finds the first position of the character.
pub proof fn lemma_first_index_of(s: Seq<char>, c: char, k: int)
    requires
        0 <= k <= s.len(),
        forall|j: int| 0 <= j < k ==> s[j] != c,
        k == s.len() || s[k] == c,
    ensures
        first_index_of(s, c) == if k == s.len() {
            None::<int>
        } else {
            Some(k)
        },
    decreases s.len(),
{
    if s.len() > 0 && k > 0 {
        let t = s.drop_first();
        assert forall|j: int| 0 <= j < k - 1 implies t[j] != c by {
            assert(t[j] == s[j + 1]);
        }
        lemma_first_index_of(t, c, k - 1);
    }
}

/// The minutes after midnight that a `HH:MM` time names, if it is one.
pub fn parse_hm(s: &str) -> (r: Option<u32>)
    ensures
        r == hm_minutes(s@),
{
    let v = chars_of(s);
    let mut k: usize = 0;
    while k < v.len() && v[k] != ':'
        invariant
            k <= v.len(),
            forall|j: int| 0 <= j < k ==> v@[j] != ':',
        decreases v.len() - k,
    {
        k += 1;
    }
    proof {
        lemma_first_index_of(v@, ':', k as int);
    }
    if k == v.len() {
        return None;
    }
    let hour_text = trim_chars(&sub_chars(&v, 0, k));
    let minute_text = trim_chars(&sub_chars(&v, k + 1, v.len()));
    assert(v@.subrange(0, k as int) =~= v@.take(k as int));
    assert(v@.subrange(k + 1, v.len() as int) =~= v@.skip(k + 1));
    let h = parse_u32_chars(&hour_text);
    let m = parse_u32_chars(&minute_text);
    match (h, m) {
        (Some(h), Some(m)) => {
            if h > 23 || m > 59 {
                None
            } else {
                Some(h * 60 + m)
            }
        },
        _ => None,
    }
}

impl GeneralConfig {
    /// Brings every setting into range (see `GeneralView::sanitized`).
    pub fn sanitize(&mut self)
        ensures
            final(self)@ == old(self)@.sanitized(),
    {
        self.cap_presets = sanitize_presets(&self.cap_presets);
        self.scroll_step_percent = clamp_u32(self.scroll_step_percent, SCROLL_STEP_MIN, SCROLL_STEP_MAX);
        self.night_cap = clamp_u32(self.night_cap, CAP_MIN, CAP_MAX);
        match self.startup_volume {
            Some(v) => {
                self.startup_volume = Some(clamp_u32(v, 0, VOLUME_MAX));
            },
            None => {},
        }
        let cleaned = match &self.devices {
            Some(names) => Some(clean_names(names)),
            None => None,
        };
        self.devices = cleaned;
    }

    /// The night window in minutes after midnight, when night mode is on and
    /// both ends are valid times.
    pub fn night_window_minutes(&self) -> (r: Option<(u32, u32)>)
        ensures
            r == self@.night_window(),
    {
        if !self.night_enabled {
            return None;
        }
        let start = match &self.night_start {
            Some(s) => parse_hm(s.as_str()),
            None => None,
        };
        let start = match start {
            Some(v) => v,
            None => return None,
        };
        let end = match &self.night_end {
            Some(s) => parse_hm(s.as_str()),
            None => None,
        };
        match end {
            Some(e) => Some((start, e)),
            None => None,
        }
    }
}

/// Whether a device list lets the bridge run for `name`: a missing list allows
/// every device.
pub open spec fn allows(devices: Option<Seq<Seq<char>>>, name: Seq<char>) -> bool {
    match devices {
        None => true,
        Some(names) => names.contains(name),
    }
}

/// The whole configuration, with strings and lists as character sequences.
pub struct ConfigView {
    pub general: GeneralView,
    pub default: DeviceConfig,
    pub device: Map<Seq<char>, DeviceConfig>,
}

impl ConfigView {
    /// The configuration with every setting brought into range.
    pub open spec fn sanitized(self) -> ConfigView {
        ConfigView {
            general: self.general.sanitized(),
            default: self.default.sanitized(),
            device: self.device.map_values(|d: DeviceConfig| d.sanitized()),
        }
    }

    /// Whether every setting is in range.
    pub open spec fn is_sanitized(self) -> bool {
        &&& self.general.is_sanitized()
        &&& self.default.sanitized() == self.default
        &&& forall|k: Seq<char>| #[trigger]
            self.device.contains_key(k) ==> self.device[k].sanitized() == self.device[k]
    }

    /// The settings of device `id`: its own when it has any, otherwise the default ones.
    pub open spec fn settings_for(self, id: Seq<char>) -> DeviceConfig {
        if self.device.contains_key(id) {
            self.device[id]
        } else {
            self.default
        }
    }

    /// The settings of the pinned device, or the default ones when no device is pinned.
    pub open spec fn active_settings(self) -> DeviceConfig {
        match self.general.pin_device {
            Some(id) => self.settings_for(id),
            None => self.default,
        }
    }
}

/// The configuration used when there is none on disk.
pub open spec fn default_config() -> ConfigView {
    ConfigView {
        general: default_general(),
        default: DeviceConfig { force_sw_volume: false, cap_percent: 100 },
        device: Map::empty(),
    }
}

/// The user configuration.
pub struct Config {
    pub general: GeneralConfig,
    pub default: DeviceConfig,
    pub device: DeviceMap,
}

impl View for Config {
    type V = ConfigView;

    open spec fn view(&self) -> ConfigView {
        ConfigView { general: self.general@, default: self.default, device: self.device@ }
    }
}

impl Default for Config {
    fn default() -> (r: Self)
        ensures
            r@ == default_config(),
    {
        Config {
            general: GeneralConfig::default(),
            default: DeviceConfig::default(),
            device: DeviceMap::new(),
        }
    }
}

impl Config {
    /// The settings of device `device_id`: its own when it has any, otherwise
    /// the default ones.
    pub fn resolve_device(&self, device_id: &str) -> (r: &DeviceConfig)
        ensures
            *r == self@.settings_for(device_id@),
            self@.device.contains_key(device_id@) ==> *r == self@.device[device_id@],
            !self@.device.contains_key(device_id@) ==> *r == self.default,
    {
        match self.device.get(device_id) {
            Some(d) => d,
            None => &self.default,
        }
    }

    /// Whether the bridge is allowed to run for the given device name.
    pub fn device_allowed(&self, name: &str) -> (r: bool)
        ensures
            r == allows(self@.general.devices, name@),
    {
        match &self.general.devices {
            None => true,
            Some(list) => {
                let mut i: usize = 0;
                while i < list.len()
                    invariant
                        i <= list.len(),
                        self@.general.devices == Some(names_view(list@)),
                        forall|j: int| 0 <= j < i ==> list@[j]@ != name@,
                    decreases list.len() - i,
                {
                    if str_eq(list[i].as_str(), name) {
                        assert(names_view(list@)[i as int] == name@);
                        assert(self@.general.devices == Some(names_view(list@)));
                        assert(names_view(list@).contains(name@));
                        return true;
                    }
                    i += 1;
                }
                assert forall|j: int| 0 <= j < list.len() implies names_view(list@)[j] != name@ by {
                    assert(names_view(list@)[j] == list@[j]@);
                }
                false
            },
        }
    }

    /// Brings every setting into range: the general settings, the default
    /// device settings and those of each device.
    pub fn sanitize_devices(&mut self)
        ensures
            final(self)@ == old(self)@.sanitized(),
    {
        self.general.sanitize();
        self.default.sanitize();
        self.device.sanitize_all();
    }
}

/// The settings of the pinned device, or the default ones when no device is pinned.
pub fn active_device_config(cfg: &Config) -> (r: &DeviceConfig)
    ensures
        *r == cfg@.active_settings(),
        match cfg@.general.pin_device {
            Some(id) => if cfg@.device.contains_key(id) {
                *r == cfg@.device[id]
            } else {
                *r == cfg.default
            },
            None => *r == cfg.default,
        },
{
    match &cfg.general.pin_device {
        Some(id) => cfg.resolve_device(id.as_str()),
        None => &cfg.default,
    }
}

/// The configuration built from the values kept in the registry under
/// `Software\WinSoftVol`: the stored software-volume flag (non-zero means on, missing means
/// off), the stored cap (missing means 100, brought into range) and whether
/// autostart was set; every other setting has its default.
pub open spec fn migrated(force_sw: Option<u32>, cap: Option<u32>, autostart: bool) -> ConfigView {
    ConfigView {
        general: GeneralView { autostart, ..default_general() },
        default: DeviceConfig {
            force_sw_volume: match force_sw {
                Some(v) => v != 0,
                None => false,
            },
            cap_percent: clamp(
                match cap {
                    Some(v) => v,
                    None => 100,
                },
                CAP_MIN,
                CAP_MAX,
            ),
        },
        device: Map::empty(),
    }
}

/// The configuration built from the values kept in the registry under
/// `Software\WinSoftVol` (see `migrated`).
pub fn migrated_config(force_sw: Option<u32>, cap: Option<u32>, autostart: bool) -> (r: Config)
    ensures
        r@ == migrated(force_sw, cap, autostart),
{
    let force = match force_sw {
        Some(v) => v,
        None => 0,
    };
    let cap = match cap {
        Some(v) => v,
        None => 100,
    };
    let mut general = GeneralConfig::default();
    general.autostart = autostart;
    Config {
        general,
        default: DeviceConfig { force_sw_volume: force != 0, cap_percent: clamp_u32(cap, CAP_MIN, CAP_MAX) },
        device: DeviceMap::new(),
    }
}

} // verus!
