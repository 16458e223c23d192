//! What holds of sanitizing as a whole: it brings every setting into range,
//! leaves a configuration already in range as it is, and so doing it twice is
//! doing it once.
use vstd::prelude::*;
use crate::config;
use crate::config::{ConfigView, DeviceConfig, GeneralView, CAP_MAX, CAP_MIN};
use crate::text;

verus! {

// ---------------------------------------------------------------------------
// Presets
// ---------------------------------------------------------------------------

/// `x` inserted into the strictly descending `r`, unless it is already there.
spec fn insert_desc(r: Seq<u32>, x: u32) -> Seq<u32>
    decreases r.len(),
{
    if r.len() == 0 {
        seq![x]
    } else if r[0] > x {
        seq![r[0]] + insert_desc(r.drop_first(), x)
    } else if r[0] == x {
        r
    } else {
        seq![x] + r
    }
}

proof fn lemma_insert_desc(r: Seq<u32>, x: u32)
    requires
        config::strictly_descending(r),
    ensures
        config::strictly_descending(insert_desc(r, x)),
        forall|y: u32| #[trigger] insert_desc(r, x).contains(y) <==> (r.contains(y) || y == x),
        insert_desc(r, x).len() > 0,
        insert_desc(r, x)[0] == if r.len() > 0 && r[0] > x { r[0] } else { x },
    decreases r.len(),
{
    let out = insert_desc(r, x);
    if r.len() == 0 {
        assert(out[0] == x);
    } else if r[0] > x {
        let t = r.drop_first();
        assert(config::strictly_descending(t)) by {
            assert forall|i: int, j: int| 0 <= i < j < t.len() implies t[i] > t[j] by {
                assert(r[i + 1] > r[j + 1]);
            }
        }
        lemma_insert_desc(t, x);
        let rest = insert_desc(t, x);
        assert(out =~= seq![r[0]] + rest);
        assert forall|i: int, j: int| 0 <= i < j < out.len() implies out[i] > out[j] by {
            if i == 0 {
                assert(out[j] == rest[j - 1]);
                assert(rest.contains(rest[j - 1]));
                if rest[j - 1] != x {
                    assert(t.contains(rest[j - 1]));
                    let m = choose|m: int| 0 <= m < t.len() && t[m] == rest[j - 1];
                    assert(r[0] > r[m + 1]);
                }
            } else {
                assert(out[i] == rest[i - 1]);
                assert(out[j] == rest[j - 1]);
            }
        }
        assert forall|y: u32| out.contains(y) <==> (r.contains(y) || y == x) by {
            if out.contains(y) {
                let i = choose|i: int| 0 <= i < out.len() && out[i] == y;
                if i == 0 {
                    assert(r[0] == y);
                } else {
                    assert(rest[i - 1] == y);
                    assert(insert_desc(t, x).contains(y));
                    if t.contains(y) {
                        let m = choose|m: int| 0 <= m < t.len() && t[m] == y;
                        assert(r[m + 1] == y);
                    }
                }
            }
            if r.contains(y) {
                let i = choose|i: int| 0 <= i < r.len() && r[i] == y;
                if i == 0 {
                    assert(out[0] == y);
                } else {
                    assert(t[i - 1] == y);
                    assert(t.contains(y));
                    assert(insert_desc(t, x).contains(y));
                    let m = choose|m: int| 0 <= m < rest.len() && rest[m] == y;
                    assert(out[m + 1] == y);
                }
            }
            if y == x {
                assert(insert_desc(t, x).contains(y));
                let m = choose|m: int| 0 <= m < rest.len() && rest[m] == y;
                assert(out[m + 1] == y);
            }
        }
    } else if r[0] == x {
        assert(r.contains(x));
    } else {
        assert(out =~= seq![x] + r);
        assert forall|i: int, j: int| 0 <= i < j < out.len() implies out[i] > out[j] by {
            if i == 0 {
                assert(out[j] == r[j - 1]);
                if j - 1 > 0 {
                    assert(r[0] > r[j - 1]);
                }
            } else {
                assert(out[i] == r[i - 1]);
                assert(out[j] == r[j - 1]);
            }
        }
        assert forall|y: u32| out.contains(y) <==> (r.contains(y) || y == x) by {
            if out.contains(y) {
                let i = choose|i: int| 0 <= i < out.len() && out[i] == y;
                if i > 0 {
                    assert(r[i - 1] == y);
                }
            }
            if r.contains(y) {
                let i = choose|i: int| 0 <= i < r.len() && r[i] == y;
                assert(out[i + 1] == y);
            }
            if y == x {
                assert(out[0] == y);
            }
        }
    }
}

/// Every sequence of values has a strictly descending arrangement of its
/// distinct values.
proof fn descending_witness(s: Seq<u32>) -> (r: Seq<u32>)
    ensures
        config::strictly_descending(r),
        config::same_values(r, s),
    decreases s.len(),
{
    if s.len() == 0 {
        Seq::empty()
    } else {
        let r0 = descending_witness(s.drop_last());
        let x = s.last();
        lemma_insert_desc(r0, x);
        let r = insert_desc(r0, x);
        assert forall|y: u32| r.contains(y) <==> s.contains(y) by {
            if s.contains(y) {
                let i = choose|i: int| 0 <= i < s.len() && s[i] == y;
                if i < s.len() - 1 {
                    assert(s.drop_last()[i] == y);
                }
            }
            if s.drop_last().contains(y) {
                let i = choose|i: int| 0 <= i < s.drop_last().len() && s.drop_last()[i] == y;
                assert(s[i] == y);
            }
            if y == x {
                assert(s[s.len() - 1] == y);
            }
        }
        r
    }
}

/// The distinct values of `s`, largest first, really are strictly descending
/// and hold the values of `s`.
pub proof fn lemma_descending_distinct(s: Seq<u32>)
    ensures
        config::strictly_descending(config::descending_distinct(s)),
        config::same_values(config::descending_distinct(s), s),
{
    let w = descending_witness(s);
    assert(config::strictly_descending(w) && config::same_values(w, s));
}

/// Sanitized presets are non-empty, strictly descending and in the cap range.
proof fn lemma_sanitized_presets_in_range(s: Seq<u32>)
    ensures
        config::sanitized_presets(s).len() > 0,
        config::strictly_descending(config::sanitized_presets(s)),
        forall|i: int|
            0 <= i < config::sanitized_presets(s).len() ==> CAP_MIN <= #[trigger] config::sanitized_presets(s)[i]
                <= CAP_MAX,
{
    let p = config::sanitized_presets(s);
    if s.len() > 0 {
        let c = config::clamped_presets(s);
        lemma_descending_distinct(c);
        assert(c.contains(c[0]));
        assert(p.contains(c[0]));
        assert forall|i: int| 0 <= i < p.len() implies CAP_MIN <= #[trigger] p[i] <= CAP_MAX by {
            assert(p.contains(p[i]));
            assert(c.contains(p[i]));
            let j = choose|j: int| 0 <= j < c.len() && c[j] == p[i];
        }
    }
}

/// Presets already in range are kept as they are.
proof fn lemma_sanitized_presets_fixed(s: Seq<u32>)
    requires
        s.len() > 0,
        config::strictly_descending(s),
        forall|i: int| 0 <= i < s.len() ==> CAP_MIN <= #[trigger] s[i] <= CAP_MAX,
    ensures
        config::sanitized_presets(s) == s,
{
    let c = config::clamped_presets(s);
    assert(c =~= s);
    assert(config::same_values(s, c));
    config::lemma_descending_distinct_is(s, c);
}

// ---------------------------------------------------------------------------
// Device names
// ---------------------------------------------------------------------------

/// The kept device names are distinct, non-empty and trimmed.
proof fn lemma_cleaned_names_clean(names: Seq<Seq<char>>)
    ensures
        config::cleaned_names(names).no_duplicates(),
        forall|i: int|
            0 <= i < config::cleaned_names(names).len() ==> (#[trigger] config::cleaned_names(names)[i]).len() > 0
                && text::trim(config::cleaned_names(names)[i]) == config::cleaned_names(names)[i],
    decreases names.len(),
{
    if names.len() > 0 {
        lemma_cleaned_names_clean(names.drop_last());
        let kept = config::cleaned_names(names.drop_last());
        let t = text::trim(names.last());
        text::lemma_trim_idempotent(names.last());
        if !(t.len() == 0 || kept.contains(t)) {
            let out = kept.push(t);
            assert forall|i: int, j: int| 0 <= i < out.len() && 0 <= j < out.len() && i != j implies out[i] != out[j] by {
                if i == kept.len() {
                    assert(kept[j] == out[j]);
                } else if j == kept.len() {
                    assert(kept[i] == out[i]);
                }
            }
            assert forall|i: int| 0 <= i < out.len() implies (#[trigger] out[i]).len() > 0
                && text::trim(out[i]) == out[i] by {
                if i < kept.len() {
                    assert(out[i] == kept[i]);
                }
            }
        }
    }
}

/// Device names that are already distinct, non-empty and trimmed are kept as they are.
proof fn lemma_cleaned_names_fixed(names: Seq<Seq<char>>)
    requires
        names.no_duplicates(),
        forall|i: int| 0 <= i < names.len() ==> (#[trigger] names[i]).len() > 0 && text::trim(names[i]) == names[i],
    ensures
        config::cleaned_names(names) == names,
    decreases names.len(),
{
    if names.len() > 0 {
        let init = names.drop_last();
        assert forall|i: int| 0 <= i < init.len() implies (#[trigger] init[i]).len() > 0 && text::trim(init[i]) == init[i] by {
            assert(init[i] == names[i]);
        }
        lemma_cleaned_names_fixed(init);
        assert(names[names.len() - 1] == names.last());
        assert(!init.contains(names.last())) by {
            if init.contains(names.last()) {
                let i = choose|i: int| 0 <= i < init.len() && init[i] == names.last();
                assert(names[i] == names[names.len() - 1]);
            }
        }
        assert(init.push(names.last()) =~= names);
    }
}

// ---------------------------------------------------------------------------
// The laws
// ---------------------------------------------------------------------------

/// Sanitizing brings every general setting into range.
pub proof fn lemma_sanitized_general_is_sanitized(g: GeneralView)
    ensures
        g.sanitized().is_sanitized(),
{
    lemma_sanitized_presets_in_range(g.cap_presets);
    if let Some(names) = g.devices {
        lemma_cleaned_names_clean(names);
    }
}

/// General settings that are in range are left as they are by sanitizing.
pub proof fn lemma_sanitize_keeps_sanitized_general(g: GeneralView)
    requires
        g.is_sanitized(),
    ensures
        g.sanitized() == g,
{
    lemma_sanitized_presets_fixed(g.cap_presets);
    if let Some(names) = g.devices {
        lemma_cleaned_names_fixed(names);
    }
}

/// Sanitizing brings every setting of a configuration into range.
pub proof fn lemma_sanitized_config_is_sanitized(c: ConfigView)
    ensures
        c.sanitized().is_sanitized(),
{
    lemma_sanitized_general_is_sanitized(c.general);
}

/// A configuration whose settings are all in range is left as it is by sanitizing.
pub proof fn lemma_sanitize_keeps_sanitized_config(c: ConfigView)
    requires
        c.is_sanitized(),
    ensures
        c.sanitized() == c,
{
    lemma_sanitize_keeps_sanitized_general(c.general);
    assert(c.device.map_values(|d: DeviceConfig| d.sanitized()) =~= c.device);
}

/// Sanitizing a configuration twice gives what sanitizing it once gives.
pub proof fn lemma_sanitize_idempotent(c: ConfigView)
    ensures
        c.sanitized().sanitized() == c.sanitized(),
{
    lemma_sanitized_config_is_sanitized(c);
    lemma_sanitize_keeps_sanitized_config(c.sanitized());
}

/// The default configuration already has every setting in range: its presets
/// are distinct, largest first and between 10 and 100.
pub proof fn lemma_default_config_is_sanitized()
    ensures
        config::default_config().is_sanitized(),
{
    let p = config::default_presets();
    assert(p[0] == 100 && p[1] == 80 && p[2] == 60 && p[3] == 40);
}

/// The configuration built from the registry values has every setting in range.
pub proof fn lemma_migrated_is_sanitized(force_sw: Option<u32>, cap: Option<u32>, autostart: bool)
    ensures
        config::migrated(force_sw, cap, autostart).is_sanitized(),
{
    let p = config::default_presets();
    assert(p[0] == 100 && p[1] == 80 && p[2] == 60 && p[3] == 40);
}

/// A time that parses lies within one day: under 1440 minutes.
pub proof fn lemma_hm_minutes_in_day(s: Seq<char>)
    ensures
        config::hm_minutes(s) matches Some(m) ==> m < 1440,
{
}

/// Text without white space is its own trim.
proof fn lemma_trim_no_white_space(s: Seq<char>)
    requires
        forall|i: int| 0 <= i < s.len() ==> !text::is_white_space(#[trigger] s[i]),
    ensures
        text::trim(s) == s,
{
    if s.len() > 0 {
        assert(!text::is_white_space(s[s.len() - 1]));
    }
}

/// A decimal number reads back as itself.
proof fn lemma_parse_decimal(n: u32)
    ensures
        text::parse_u32(text::decimal(n as nat)) == Some(n),
        text::trim(text::decimal(n as nat)) == text::decimal(n as nat),
        forall|i: int| 0 <= i < text::decimal(n as nat).len() ==> text::decimal(n as nat)[i] != ':',
{
    let d = text::decimal(n as nat);
    text::lemma_decimal_digits(n as nat);
    assert forall|i: int| 0 <= i < d.len() implies !text::is_white_space(#[trigger] d[i]) && d[i] != ':' by {
        assert(text::is_digit(d[i]));
        assert((':' as u32) == 58);
    }
    lemma_trim_no_white_space(d);
    assert(text::is_digit(d[0]));
    assert(('+' as u32) == 43);
    assert(text::unsigned_digits(d) == d);
}

/// Writing a time of day as `H:M` in decimal and parsing it gives its minutes
/// after midnight back.
pub proof fn lemma_hm_round_trip(h: u32, m: u32)
    requires
        h < 24,
        m < 60,
    ensures
        config::hm_minutes(text::decimal(h as nat) + ":"@ + text::decimal(m as nat)) == Some((h * 60 + m) as u32),
{
    reveal_strlit(":");
    let dh = text::decimal(h as nat);
    let dm = text::decimal(m as nat);
    let s = dh + ":"@ + dm;
    lemma_parse_decimal(h);
    lemma_parse_decimal(m);
    let k = dh.len() as int;
    assert(s[k] == ':');
    assert forall|j: int| 0 <= j < k implies s[j] != ':' by {
        assert(s[j] == dh[j]);
    }
    config::lemma_first_index_of(s, ':', k);
    assert(s.take(k) =~= dh);
    assert(s.skip(k + 1) =~= dm);
}

// ---------------------------------------------------------------------------
// Per-device settings
// ---------------------------------------------------------------------------

/// Whenever the device table holds an entry for a device, that entry, whatever
/// its values, is the device's settings; the default settings are the
/// device's only when the table holds no entry for it.
pub proof fn lemma_settings_for_entry(c: ConfigView, id: Seq<char>)
    ensures
        c.device.contains_key(id) ==> c.settings_for(id) == c.device[id],
        !c.device.contains_key(id) ==> c.settings_for(id) == c.default,
        match c.general.pin_device {
            Some(p) => c.active_settings() == if c.device.contains_key(p) {
                c.device[p]
            } else {
                c.default
            },
            None => c.active_settings() == c.default,
        },
{
}

/// Giving a device an entry of its own makes that entry the device's settings
/// and leaves the settings of every other device as they were.
pub proof fn lemma_settings_after_insert(
    c: ConfigView,
    id: Seq<char>,
    d: DeviceConfig,
    other: Seq<char>,
)
    ensures
        (ConfigView { device: c.device.insert(id, d), ..c }).settings_for(id) == d,
        other != id ==> (ConfigView { device: c.device.insert(id, d), ..c }).settings_for(other)
            == c.settings_for(other),
{
}

} // verus!
