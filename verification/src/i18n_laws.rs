//! What the filled templates say: the tooltip shows the volume and the cap as
//! decimal numbers, and a language code names the same language as its
//! normalised form.
use vstd::prelude::*;
use crate::i18n;
use crate::i18n::Lang;
use crate::text;

verus! {

/// The `{pct}` marker.
spec fn pct_marker() -> Seq<char> {
    i18n::placeholder("pct"@)
}

/// The `{cap}` marker.
spec fn cap_marker() -> Seq<char> {
    i18n::placeholder("cap"@)
}

proof fn lemma_markers()
    ensures
        pct_marker() == seq!['{', 'p', 'c', 't', '}'],
        cap_marker() == seq!['{', 'c', 'a', 'p', '}'],
{
    reveal_strlit("pct");
    reveal_strlit("cap");
    assert(pct_marker() =~= seq!['{', 'p', 'c', 't', '}']);
    assert(cap_marker() =~= seq!['{', 'c', 'a', 'p', '}']);
}

/// Filling a template with one value is one replacement.
proof fn lemma_fill_one(t: Seq<char>, k: Seq<char>, v: Seq<char>)
    ensures
        i18n::fill_template(t, seq![(k, v)]) == text::replace_all(t, i18n::placeholder(k), v),
{
    let vals = seq![(k, v)];
    let r = text::replace_all(t, i18n::placeholder(k), v);
    assert(vals.drop_first() =~= Seq::<(Seq<char>, Seq<char>)>::empty());
    assert(i18n::fill_template(r, Seq::<(Seq<char>, Seq<char>)>::empty()) == r);
    assert(i18n::fill_template(t, vals) == i18n::fill_template(r, vals.drop_first()));
}

/// Filling a template with two values is two replacements, in order.
proof fn lemma_fill_two(t: Seq<char>, k1: Seq<char>, v1: Seq<char>, k2: Seq<char>, v2: Seq<char>)
    ensures
        i18n::fill_template(t, seq![(k1, v1), (k2, v2)]) == text::replace_all(
            text::replace_all(t, i18n::placeholder(k1), v1),
            i18n::placeholder(k2),
            v2,
        ),
{
    let vals = seq![(k1, v1), (k2, v2)];
    let r = text::replace_all(t, i18n::placeholder(k1), v1);
    assert(vals.drop_first() =~= seq![(k2, v2)]);
    assert(i18n::fill_template(t, vals) == i18n::fill_template(r, vals.drop_first()));
    lemma_fill_one(r, k2, v2);
}

/// The `{cap}` marker followed by text without `{` is left alone by a
/// replacement of `{pct}`.
proof fn lemma_cap_marker_survives_pct(s: Seq<char>, v: Seq<char>)
    requires
        text::free_of(s, '{'),
    ensures
        text::replace_all(cap_marker() + s, pct_marker(), v) == cap_marker() + s,
{
    lemma_markers();
    let t = cap_marker() + s;
    let rest = seq!['c', 'a', 'p', '}'] + s;
    assert(t.drop_first() =~= rest);
    assert(t.take(5)[1] == 'c');
    assert(t.take(5) != pct_marker());
    assert(text::free_of(rest, '{')) by {
        assert forall|i: int| 0 <= i < rest.len() implies rest[i] != '{' by {
            if i >= 4 {
                assert(rest[i] == s[i - 4]);
            }
        }
    }
    text::lemma_replace_absent(rest, pct_marker(), v);
    assert(t =~= seq![t[0]] + rest);
}

/// A template `p{pct}q{cap}s`, with `p`, `q` and `s` free of `{`, filled with
/// values free of `{`, reads `p`, the first value, `q`, the second value, `s`.
proof fn lemma_fill_volume_template(
    p: Seq<char>,
    q: Seq<char>,
    s: Seq<char>,
    dp: Seq<char>,
    dc: Seq<char>,
)
    requires
        text::free_of(p, '{'),
        text::free_of(q, '{'),
        text::free_of(s, '{'),
        text::free_of(dp, '{'),
        text::free_of(dc, '{'),
    ensures
        i18n::fill_template(
            p + pct_marker() + q + cap_marker() + s,
            seq![("pct"@, dp), ("cap"@, dc)],
        ) == p + dp + q + dc + s,
{
    lemma_markers();
    let pm = pct_marker();
    let cm = cap_marker();
    lemma_fill_two(p + pm + q + cm + s, "pct"@, dp, "cap"@, dc);
    // First replacement: `{pct}` becomes `dp`.
    assert(p + pm + q + cm + s =~= p + (pm + (q + (cm + s))));
    text::lemma_replace_skips_prefix(p, pm + (q + (cm + s)), pm, dp);
    text::lemma_replace_leading_match(q + (cm + s), pm, dp);
    text::lemma_replace_skips_prefix(q, cm + s, pm, dp);
    lemma_cap_marker_survives_pct(s, dp);
    let once = p + (dp + (q + (cm + s)));
    assert(text::replace_all(p + pm + q + cm + s, pm, dp) == once);
    // Second replacement: `{cap}` becomes `dc`.
    let head = p + dp + q;
    assert(text::free_of(head, '{')) by {
        assert forall|i: int| 0 <= i < head.len() implies head[i] != '{' by {
            if i < p.len() {
                assert(head[i] == p[i]);
            } else if i < p.len() + dp.len() {
                assert(head[i] == dp[i - p.len()]);
            } else {
                assert(head[i] == q[i - p.len() - dp.len()]);
            }
        }
    }
    assert(once =~= head + (cm + s));
    text::lemma_replace_skips_prefix(head, cm + s, cm, dc);
    text::lemma_replace_leading_match(s, cm, dc);
    text::lemma_replace_absent(s, cm, dc);
    assert(head + (dc + s) =~= p + dp + q + dc + s);
}

/// A template `p{cap}s`, with `p` and `s` free of `{`, filled with values
/// free of `{`, reads `p`, the second value, `s`.
proof fn lemma_fill_muted_template(p: Seq<char>, s: Seq<char>, dp: Seq<char>, dc: Seq<char>)
    requires
        text::free_of(p, '{'),
        text::free_of(s, '{'),
        text::free_of(dc, '{'),
    ensures
        i18n::fill_template(p + cap_marker() + s, seq![("pct"@, dp), ("cap"@, dc)]) == p + dc + s,
{
    lemma_markers();
    let pm = pct_marker();
    let cm = cap_marker();
    lemma_fill_two(p + cm + s, "pct"@, dp, "cap"@, dc);
    assert(p + cm + s =~= p + (cm + s));
    text::lemma_replace_skips_prefix(p, cm + s, pm, dp);
    lemma_cap_marker_survives_pct(s, dp);
    text::lemma_replace_skips_prefix(p, cm + s, cm, dc);
    text::lemma_replace_leading_match(s, cm, dc);
    text::lemma_replace_absent(s, cm, dc);
    assert(p + (dc + s) =~= p + dc + s);
}

/// The tooltip of each language shows the volume and the cap as decimal
/// numbers, e.g. `75% | cap: 100%` in English and `Muted | cap: 100%` when muted.
pub proof fn lemma_tooltip_text(pct: u32, cap: u32)
    ensures
        ({
            let vals = seq![("pct"@, text::decimal(pct as nat)), ("cap"@, text::decimal(cap as nat))];
            let dp = text::decimal(pct as nat);
            let dc = text::decimal(cap as nat);
            &&& i18n::fill_template(Lang::En.table().tooltip_volume@, vals) == dp + "% | cap: "@ + dc + "%"@
            &&& i18n::fill_template(Lang::En.table().tooltip_muted@, vals) == "Muted | cap: "@ + dc + "%"@
            &&& i18n::fill_template(Lang::ZhCn.table().tooltip_volume@, vals) == dp + "% | 上限 "@ + dc + "%"@
            &&& i18n::fill_template(Lang::ZhCn.table().tooltip_muted@, vals) == "已静音 | 上限 "@ + dc + "%"@
            &&& i18n::fill_template(Lang::ZhTw.table().tooltip_volume@, vals) == dp + "% | 上限 "@ + dc + "%"@
            &&& i18n::fill_template(Lang::ZhTw.table().tooltip_muted@, vals) == "已靜音 | 上限 "@ + dc + "%"@
        }),
{
    let dp = text::decimal(pct as nat);
    let dc = text::decimal(cap as nat);
    text::lemma_decimal_free_of_brace(pct as nat);
    text::lemma_decimal_free_of_brace(cap as nat);
    lemma_markers();
    reveal_strlit("{pct}% | cap: {cap}%");
    reveal_strlit("Muted | cap: {cap}%");
    reveal_strlit("{pct}% | 上限 {cap}%");
    reveal_strlit("已静音 | 上限 {cap}%");
    reveal_strlit("已靜音 | 上限 {cap}%");
    reveal_strlit("% | cap: ");
    reveal_strlit("Muted | cap: ");
    reveal_strlit("% | 上限 ");
    reveal_strlit("已静音 | 上限 ");
    reveal_strlit("已靜音 | 上限 ");
    reveal_strlit("%");
    let e: Seq<char> = Seq::empty();
    let pct_sign = "%"@;
    assert(text::free_of(e, '{'));
    assert(text::free_of(pct_sign, '{'));
    // English
    let q_en = "% | cap: "@;
    assert(text::free_of(q_en, '{'));
    assert(Lang::En.table().tooltip_volume@ =~= e + pct_marker() + q_en + cap_marker() + pct_sign);
    lemma_fill_volume_template(e, q_en, pct_sign, dp, dc);
    assert(e + dp + q_en + dc + pct_sign =~= dp + q_en + dc + pct_sign);
    let m_en = "Muted | cap: "@;
    assert(text::free_of(m_en, '{'));
    assert(Lang::En.table().tooltip_muted@ =~= m_en + cap_marker() + pct_sign);
    lemma_fill_muted_template(m_en, pct_sign, dp, dc);
    // Chinese
    let q_zh = "% | 上限 "@;
    assert(text::free_of(q_zh, '{'));
    assert(Lang::ZhCn.table().tooltip_volume@ =~= e + pct_marker() + q_zh + cap_marker() + pct_sign);
    assert(Lang::ZhTw.table().tooltip_volume@ =~= e + pct_marker() + q_zh + cap_marker() + pct_sign);
    lemma_fill_volume_template(e, q_zh, pct_sign, dp, dc);
    assert(e + dp + q_zh + dc + pct_sign =~= dp + q_zh + dc + pct_sign);
    let m_cn = "已静音 | 上限 "@;
    assert(text::free_of(m_cn, '{'));
    assert(Lang::ZhCn.table().tooltip_muted@ =~= m_cn + cap_marker() + pct_sign);
    lemma_fill_muted_template(m_cn, pct_sign, dp, dc);
    let m_tw = "已靜音 | 上限 "@;
    assert(text::free_of(m_tw, '{'));
    assert(Lang::ZhTw.table().tooltip_muted@ =~= m_tw + cap_marker() + pct_sign);
    lemma_fill_muted_template(m_tw, pct_sign, dp, dc);
}

/// Normalising a character keeps it white space exactly when it was, and
/// normalising it again changes nothing.
proof fn lemma_normalize_char(c: char)
    ensures
        text::is_white_space(i18n::normalize_code_char(c)) == text::is_white_space(c),
        i18n::normalize_code_char(i18n::normalize_code_char(c)) == i18n::normalize_code_char(c),
{
    let v = c as u32;
    if 65 <= v <= 90 {
        assert((v + 32) as char as u32 == v + 32);
    }
    assert(('_' as u32) == 95);
    assert(('-' as u32) == 45);
}

/// Trimming commutes with normalising each character.
proof fn lemma_trim_map(t: Seq<char>)
    ensures
        text::trim_start(t.map_values(|c: char| i18n::normalize_code_char(c)))
            == text::trim_start(t).map_values(|c: char| i18n::normalize_code_char(c)),
        text::trim_end(t.map_values(|c: char| i18n::normalize_code_char(c)))
            == text::trim_end(t).map_values(|c: char| i18n::normalize_code_char(c)),
    decreases t.len(),
{
    let f = |c: char| i18n::normalize_code_char(c);
    let m = t.map_values(f);
    if t.len() > 0 {
        lemma_normalize_char(t[0]);
        lemma_normalize_char(t.last());
        assert(m[0] == f(t[0]));
        assert(m.last() == f(t.last()));
        lemma_trim_map(t.drop_first());
        lemma_trim_map(t.drop_last());
        assert(m.drop_first() =~= t.drop_first().map_values(f));
        assert(m.drop_last() =~= t.drop_last().map_values(f));
    } else {
        assert(m =~= t.map_values(f));
    }
}

/// A language code names the same language as its normalised form: white
/// space around it, the case of ASCII letters and `_` in place of `-` do not
/// change which language it names.
pub proof fn lemma_normalized_code_same_language(code: Seq<char>)
    ensures
        i18n::lang_of_code(i18n::normalize_code(code)) == i18n::lang_of_code(code),
        i18n::normalize_code(i18n::normalize_code(code)) == i18n::normalize_code(code),
{
    let f = |c: char| i18n::normalize_code_char(c);
    let t = text::trim(code);
    let n = t.map_values(f);
    lemma_trim_map(t);
    lemma_trim_map(text::trim_start(t));
    text::lemma_trim_idempotent(code);
    assert(text::trim(n) == text::trim(t).map_values(f));
    assert forall|i: int| 0 <= i < n.len() implies #[trigger] f(n[i]) == n[i] by {
        lemma_normalize_char(t[i]);
    }
    assert(n.map_values(f) =~= n);
}

/// Only the Windows UI languages zh-CN (0x0804) and zh-SG (0x1004) choose
/// Simplified Chinese, only zh-TW (0x0404), zh-HK (0x0C04) and zh-MO (0x1404)
/// choose Traditional Chinese, and every other UI language falls back to English.
pub proof fn lemma_langid_choice(id: u16)
    ensures
        i18n::lang_of_langid(id) == Lang::ZhCn <==> (id == 0x0804 || id == 0x1004),
        i18n::lang_of_langid(id) == Lang::ZhTw <==> (id == 0x0404 || id == 0x0C04 || id == 0x1404),
        !(id == 0x0804 || id == 0x1004 || id == 0x0404 || id == 0x0C04 || id == 0x1404)
            ==> i18n::lang_of_langid(id) == Lang::En,
{
}

/// In every language the About entry of the tray menu reads as the title of the
/// About dialog it opens, and the About and Quit entries read differently.
pub proof fn lemma_about_entry_is_about_title(l: Lang)
    ensures
        l.table().menu_about@ == l.table().about_title@,
        l.table().menu_about@ != l.table().menu_quit@,
{
    reveal_strlit("About WinSoftVol");
    reveal_strlit("Quit WinSoftVol");
    reveal_strlit("关于 WinSoftVol");
    reveal_strlit("退出 WinSoftVol");
    reveal_strlit("關於 WinSoftVol");
    reveal_strlit("結束 WinSoftVol");
    assert("About WinSoftVol"@[0] != "Quit WinSoftVol"@[0]);
    assert("关于 WinSoftVol"@[0] != "退出 WinSoftVol"@[0]);
    assert("關於 WinSoftVol"@[0] != "結束 WinSoftVol"@[0]);
}

/// The labels of the tray menu in each language, each naming its entry's action.
pub proof fn lemma_menu_labels()
    ensures
        Lang::En.table().menu_about@ == "About WinSoftVol"@,
        Lang::En.table().menu_autostart@ == "Start on Windows startup"@,
        Lang::En.table().menu_softvol@ == "Force software volume"@,
        Lang::En.table().menu_night@ == "Night mode"@,
        Lang::En.table().menu_volcap@ == "Max volume"@,
        Lang::En.table().menu_startup_vol@ == "Startup volume"@,
        Lang::En.table().menu_off@ == "Off"@,
        Lang::En.table().menu_quit@ == "Quit WinSoftVol"@,
        Lang::ZhCn.table().menu_about@ == "关于 WinSoftVol"@,
        Lang::ZhCn.table().menu_autostart@ == "开机自启动"@,
        Lang::ZhCn.table().menu_softvol@ == "强制软件音量"@,
        Lang::ZhCn.table().menu_night@ == "夜间模式"@,
        Lang::ZhCn.table().menu_volcap@ == "音量上限"@,
        Lang::ZhCn.table().menu_startup_vol@ == "启动音量"@,
        Lang::ZhCn.table().menu_off@ == "关闭"@,
        Lang::ZhCn.table().menu_quit@ == "退出 WinSoftVol"@,
        Lang::ZhTw.table().menu_about@ == "關於 WinSoftVol"@,
        Lang::ZhTw.table().menu_autostart@ == "開機自動啟動"@,
        Lang::ZhTw.table().menu_softvol@ == "強制軟體音量"@,
        Lang::ZhTw.table().menu_night@ == "夜間模式"@,
        Lang::ZhTw.table().menu_volcap@ == "音量上限"@,
        Lang::ZhTw.table().menu_startup_vol@ == "啟動音量"@,
        Lang::ZhTw.table().menu_off@ == "關閉"@,
        Lang::ZhTw.table().menu_quit@ == "結束 WinSoftVol"@,
{
}

} // verus!
