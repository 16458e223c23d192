//! Built-in localisation: the supported languages, their string
//! tables and the `{placeholder}` templates filled from them.
use vstd::prelude::*;
use crate::text;
use crate::text::{
    chars_of, push_decimal, push_str_chars, replace_chars, string_from_chars, trim_chars,
};

verus! {

/// A supported user-interface language.
#[derive(Debug, Clone, Copy, PartialEq, Eq, Structural)]
pub enum Lang {
    En,
    ZhCn,
    ZhTw,
}

/// The stored form of [`Lang::En`].
pub const LANG_EN: u8 = 0;
/// The stored form of [`Lang::ZhCn`].
pub const LANG_ZH_CN: u8 = 1;
/// The stored form of [`Lang::ZhTw`].
pub const LANG_ZH_TW: u8 = 2;

/// All user-visible strings for one language.
///
/// Templates use `{placeholder}` markers which are filled by the helper
/// methods below (see [`Strings::tooltip`], [`Strings::about_body`], ...).
pub struct Strings {
    pub menu_about: &'static str,
    pub menu_autostart: &'static str,
    pub menu_softvol: &'static str,
    pub menu_night: &'static str,
    pub menu_volcap: &'static str,
    pub menu_startup_vol: &'static str,
    pub menu_off: &'static str,
    pub menu_quit: &'static str,
    pub tooltip_active: &'static str,
    pub tooltip_volume: &'static str,
    pub tooltip_muted: &'static str,
    pub about_title: &'static str,
    pub about_body: &'static str,
    pub about_update: &'static str,
    pub notif_title_exclusive: &'static str,
    pub notif_reconnected: &'static str,
    pub notif_exclusive_start: &'static str,
    pub notif_exclusive_end: &'static str,
    pub notif_title_config_error: &'static str,
    pub notif_config_error: &'static str,
    pub notif_title_device_not_found: &'static str,
    pub notif_device_not_found: &'static str,
    pub notif_title_update: &'static str,
    pub notif_update: &'static str,
}

/// A language code with white space trimmed, ASCII letters lower-cased and
/// `_` written as `-`.
pub open spec fn normalize_code(code: Seq<char>) -> Seq<char> {
    text::trim(code).map_values(|c: char| normalize_code_char(c))
}

/// One character of a normalised language code.
pub open spec fn normalize_code_char(c: char) -> char {
    if 65 <= c as u32 <= 90 {
        (c as u32 + 32) as char
    } else if c == '_' {
        '-'
    } else {
        c
    }
}

/// The language that a normalised code names.
pub open spec fn lang_of_normalized(n: Seq<char>) -> Option<Lang> {
    if n == "en"@ || n == "en-us"@ || n == "en-gb"@ {
        Some(Lang::En)
    } else if n == "zh"@ || n == "zh-cn"@ || n == "zh-hans"@ || n == "zh-sg"@ {
        Some(Lang::ZhCn)
    } else if n == "zh-tw"@ || n == "zh-hk"@ || n == "zh-mo"@ || n == "zh-hant"@ {
        Some(Lang::ZhTw)
    } else {
        None
    }
}

/// The language that the code `code` names, if any.
pub open spec fn lang_of_code(code: Seq<char>) -> Option<Lang> {
    lang_of_normalized(normalize_code(code))
}

/// The language that a Windows UI language identifier stands for.
pub open spec fn lang_of_langid(id: u16) -> Lang {
    if id == 0x0804 || id == 0x1004 {
        Lang::ZhCn
    } else if id == 0x0404 || id == 0x0C04 || id == 0x1404 {
        Lang::ZhTw
    } else {
        Lang::En
    }
}

/// The stored form of a language.
pub open spec fn u8_of_lang(l: Lang) -> u8 {
    match l {
        Lang::En => LANG_EN,
        Lang::ZhCn => LANG_ZH_CN,
        Lang::ZhTw => LANG_ZH_TW,
    }
}

/// The language a stored value stands for; unknown values read as English.
pub open spec fn lang_of_u8(v: u8) -> Lang {
    if v == LANG_ZH_CN {
        Lang::ZhCn
    } else if v == LANG_ZH_TW {
        Lang::ZhTw
    } else {
        Lang::En
    }
}

/// The language used: the configured one when its code is known, otherwise
/// the detected one.
pub open spec fn resolved_lang(configured: Option<Seq<char>>, detected: Lang) -> Lang {
    match configured {
        Some(code) => match lang_of_code(code) {
            Some(l) => l,
            None => detected,
        },
        None => detected,
    }
}

/// The marker `{key}` that stands for the value of `key` in a template.
pub open spec fn placeholder(key: Seq<char>) -> Seq<char> {
    seq!['{'] + key + seq!['}']
}

/// `template` with the placeholders of `values` replaced, one key after the
/// other, in the order of `values`.
pub open spec fn fill_template(template: Seq<char>, values: Seq<(Seq<char>, Seq<char>)>) -> Seq<char>
    decreases values.len(),
{
    if values.len() == 0 {
        template
    } else {
        fill_template(
            text::replace_all(template, placeholder(values[0].0), values[0].1),
            values.drop_first(),
        )
    }
}

/// The key/value pairs of `values`, as character sequences.
pub open spec fn pairs_view(values: Seq<(&str, &str)>) -> Seq<(Seq<char>, Seq<char>)> {
    values.map_values(|p: (&str, &str)| (p.0@, p.1@))
}

impl Lang {
    /// The user-visible strings of this language.
    pub open spec fn table(self) -> Strings {
        match self {
            Lang::En => Strings {

                menu_about: "About WinSoftVol",
                menu_autostart: "Start on Windows startup",
                menu_softvol: "Force software volume",
                menu_night: "Night mode",
                menu_volcap: "Max volume",
                menu_startup_vol: "Startup volume",
                menu_off: "Off",
                menu_quit: "Quit WinSoftVol",

                tooltip_active: "WinSoftVol — active",
                tooltip_volume: "{pct}% | cap: {cap}%",
                tooltip_muted: "Muted | cap: {cap}%",

                about_title: "About WinSoftVol",
                about_body: "v{version} ({hash})\n{desc}\n\nAuthor:  {authors}\nBuilt:   {build}\n\n<a href=\"{homepage}\">Project Homepage</a>\n\nIf you find WinSoftVol useful, please consider supporting its development.\n<a href=\"{sponsor}\">Sponsor on GitHub \u{2665}</a>{update}",
                about_update: "\n\n<a href=\"{url}\">\u{1F195} New version {tag} available \u{2014} click to download</a>",

                notif_title_exclusive: "WinSoftVol — exclusive mode detected",
                notif_reconnected: "USB audio device reconnected — volume control restored.",
                notif_exclusive_start: "An app bypassed the audio mixer. Volume control won't apply to it until it releases the device.",
                notif_exclusive_end: "Exclusive audio mode ended — volume control restored.",
                notif_title_config_error: "WinSoftVol — Config Error",
                notif_config_error: "config.toml: {error}\nPrevious settings kept. Fix the file to apply changes.",
                notif_title_device_not_found: "WinSoftVol — Device Not Found",
                notif_device_not_found: "Pinned device \"{name}\" not found — using default audio device.",
                notif_title_update: "WinSoftVol Update Available",
                notif_update: "{tag} is ready — click to open release page",
            },
            Lang::ZhCn => Strings {

                menu_about: "关于 WinSoftVol",
                menu_autostart: "开机自启动",
                menu_softvol: "强制软件音量",
                menu_night: "夜间模式",
                menu_volcap: "音量上限",
                menu_startup_vol: "启动音量",
                menu_off: "关闭",
                menu_quit: "退出 WinSoftVol",

                tooltip_active: "WinSoftVol — 运行中",
                tooltip_volume: "{pct}% | 上限 {cap}%",
                tooltip_muted: "已静音 | 上限 {cap}%",

                about_title: "关于 WinSoftVol",
                about_body: "v{version} ({hash})\n{desc}\n\n作者:  {authors}\n构建:  {build}\n\n<a href=\"{homepage}\">项目主页</a>\n\n如果 WinSoftVol 对你有帮助，欢迎支持它的开发。\n<a href=\"{sponsor}\">在 GitHub 上赞助 \u{2665}</a>{update}",
                about_update: "\n\n<a href=\"{url}\">\u{1F195} 新版本 {tag} 已发布 \u{2014} 点击下载</a>",

                notif_title_exclusive: "WinSoftVol — 检测到独占模式",
                notif_reconnected: "USB 音频设备已重新连接 — 音量控制已恢复。",
                notif_exclusive_start: "有应用绕过了音频混音器，在它释放设备之前，音量控制不会对它生效。",
                notif_exclusive_end: "独占音频模式已结束 — 音量控制已恢复。",
                notif_title_config_error: "WinSoftVol — 配置错误",
                notif_config_error: "config.toml: {error}\n已保留原设置，修复配置文件后生效。",
                notif_title_device_not_found: "WinSoftVol — 未找到设备",
                notif_device_not_found: "未找到绑定的设备 \"{name}\" — 将使用默认音频设备。",
                notif_title_update: "WinSoftVol 有可用更新",
                notif_update: "{tag} 已发布 — 点击打开发布页面",
            },
            Lang::ZhTw => Strings {

                menu_about: "關於 WinSoftVol",
                menu_autostart: "開機自動啟動",
                menu_softvol: "強制軟體音量",
                menu_night: "夜間模式",
                menu_volcap: "音量上限",
                menu_startup_vol: "啟動音量",
                menu_off: "關閉",
                menu_quit: "結束 WinSoftVol",

                tooltip_active: "WinSoftVol — 執行中",
                tooltip_volume: "{pct}% | 上限 {cap}%",
                tooltip_muted: "已靜音 | 上限 {cap}%",

                about_title: "關於 WinSoftVol",
                about_body: "v{version} ({hash})\n{desc}\n\n作者:  {authors}\n建置:  {build}\n\n<a href=\"{homepage}\">專案首頁</a>\n\n如果 WinSoftVol 對你有幫助，歡迎支持它的開發。\n<a href=\"{sponsor}\">在 GitHub 上贊助 \u{2665}</a>{update}",
                about_update: "\n\n<a href=\"{url}\">\u{1F195} 新版本 {tag} 已發布 \u{2014} 點擊下載</a>",

                notif_title_exclusive: "WinSoftVol — 偵測到獨佔模式",
                notif_reconnected: "USB 音訊裝置已重新連線 — 音量控制已恢復。",
                notif_exclusive_start: "有應用程式繞過了音訊混音器，在它釋放裝置之前，音量控制不會對它生效。",
                notif_exclusive_end: "獨佔音訊模式已結束 — 音量控制已恢復。",
                notif_title_config_error: "WinSoftVol — 設定錯誤",
                notif_config_error: "config.toml: {error}\n已保留原設定，修復設定檔後生效。",
                notif_title_device_not_found: "WinSoftVol — 找不到裝置",
                notif_device_not_found: "找不到綁定的裝置 \"{name}\" — 將使用預設音訊裝置。",
                notif_title_update: "WinSoftVol 有新版本可用",
                notif_update: "{tag} 已發布 — 點擊開啟發布頁面",
            },
        }
    }

    /// Parse a language code such as `en`, `zh-CN`, `zh-Hans`, `zh-TW`, `zh-Hant`.
    pub fn from_code(code: &str) -> (r: Option<Self>)
        ensures
            r == lang_of_code(code@),
    {
        let trimmed = trim_chars(&chars_of(code));
        let mut n: Vec<char> = Vec::new();
        let mut i: usize = 0;
        while i < trimmed.len()
            invariant
                i <= trimmed.len(),
                n@ == trimmed@.take(i as int).map_values(|c: char| normalize_code_char(c)),
            decreases trimmed.len() - i,
        {
            n.push(normalize_char(trimmed[i]));
            i += 1;
            assert(n@ =~= trimmed@.take(i as int).map_values(|c: char| normalize_code_char(c)));
        }
        assert(trimmed@.take(trimmed.len() as int) =~= trimmed@);
        if chars_eq(&n, "en") || chars_eq(&n, "en-us") || chars_eq(&n, "en-gb") {
            Some(Lang::En)
        } else if chars_eq(&n, "zh") || chars_eq(&n, "zh-cn") || chars_eq(&n, "zh-hans")
            || chars_eq(&n, "zh-sg") {
            Some(Lang::ZhCn)
        } else if chars_eq(&n, "zh-tw") || chars_eq(&n, "zh-hk") || chars_eq(&n, "zh-mo")
            || chars_eq(&n, "zh-hant") {
            Some(Lang::ZhTw)
        } else {
            None
        }
    }

    /// The language of a Windows UI language identifier, falling back to English.
    pub fn from_langid(id: u16) -> (r: Self)
        ensures
            r == lang_of_langid(id),
            r == Lang::ZhCn <==> (id == 0x0804 || id == 0x1004),
            r == Lang::ZhTw <==> (id == 0x0404 || id == 0x0C04 || id == 0x1404),
            r == Lang::En <==> !(id == 0x0804 || id == 0x1004 || id == 0x0404 || id == 0x0C04
                || id == 0x1404),
    {
        if id == 0x0804 || id == 0x1004 {
            Lang::ZhCn
        } else if id == 0x0404 || id == 0x0C04 || id == 0x1404 {
            Lang::ZhTw
        } else {
            Lang::En
        }
    }

    /// The user-visible strings of this language.
    pub fn strings(self) -> (r: Strings)
        ensures
            r == self.table(),
            r.menu_about@ == r.about_title@,
            self == Lang::En ==> r.menu_about@ == "About WinSoftVol"@ && r.menu_quit@
                == "Quit WinSoftVol"@,
            self == Lang::ZhCn ==> r.menu_about@ == "关于 WinSoftVol"@ && r.menu_quit@
                == "退出 WinSoftVol"@,
            self == Lang::ZhTw ==> r.menu_about@ == "關於 WinSoftVol"@ && r.menu_quit@
                == "結束 WinSoftVol"@,
    {
        match self {
            Lang::En => Strings {

                    menu_about: "About WinSoftVol",
                    menu_autostart: "Start on Windows startup",
                    menu_softvol: "Force software volume",
                    menu_night: "Night mode",
                    menu_volcap: "Max volume",
                    menu_startup_vol: "Startup volume",
                    menu_off: "Off",
                    menu_quit: "Quit WinSoftVol",

                    tooltip_active: "WinSoftVol — active",
                    tooltip_volume: "{pct}% | cap: {cap}%",
                    tooltip_muted: "Muted | cap: {cap}%",

                    about_title: "About WinSoftVol",
                    about_body: "v{version} ({hash})\n{desc}\n\nAuthor:  {authors}\nBuilt:   {build}\n\n<a href=\"{homepage}\">Project Homepage</a>\n\nIf you find WinSoftVol useful, please consider supporting its development.\n<a href=\"{sponsor}\">Sponsor on GitHub \u{2665}</a>{update}",
                    about_update: "\n\n<a href=\"{url}\">\u{1F195} New version {tag} available \u{2014} click to download</a>",

                    notif_title_exclusive: "WinSoftVol — exclusive mode detected",
                    notif_reconnected: "USB audio device reconnected — volume control restored.",
                    notif_exclusive_start: "An app bypassed the audio mixer. Volume control won't apply to it until it releases the device.",
                    notif_exclusive_end: "Exclusive audio mode ended — volume control restored.",
                    notif_title_config_error: "WinSoftVol — Config Error",
                    notif_config_error: "config.toml: {error}\nPrevious settings kept. Fix the file to apply changes.",
                    notif_title_device_not_found: "WinSoftVol — Device Not Found",
                    notif_device_not_found: "Pinned device \"{name}\" not found — using default audio device.",
                    notif_title_update: "WinSoftVol Update Available",
                    notif_update: "{tag} is ready — click to open release page",
                },
            Lang::ZhCn => Strings {

                    menu_about: "关于 WinSoftVol",
                    menu_autostart: "开机自启动",
                    menu_softvol: "强制软件音量",
                    menu_night: "夜间模式",
                    menu_volcap: "音量上限",
                    menu_startup_vol: "启动音量",
                    menu_off: "关闭",
                    menu_quit: "退出 WinSoftVol",

                    tooltip_active: "WinSoftVol — 运行中",
                    tooltip_volume: "{pct}% | 上限 {cap}%",
                    tooltip_muted: "已静音 | 上限 {cap}%",

                    about_title: "关于 WinSoftVol",
                    about_body: "v{version} ({hash})\n{desc}\n\n作者:  {authors}\n构建:  {build}\n\n<a href=\"{homepage}\">项目主页</a>\n\n如果 WinSoftVol 对你有帮助，欢迎支持它的开发。\n<a href=\"{sponsor}\">在 GitHub 上赞助 \u{2665}</a>{update}",
                    about_update: "\n\n<a href=\"{url}\">\u{1F195} 新版本 {tag} 已发布 \u{2014} 点击下载</a>",

                    notif_title_exclusive: "WinSoftVol — 检测到独占模式",
                    notif_reconnected: "USB 音频设备已重新连接 — 音量控制已恢复。",
                    notif_exclusive_start: "有应用绕过了音频混音器，在它释放设备之前，音量控制不会对它生效。",
                    notif_exclusive_end: "独占音频模式已结束 — 音量控制已恢复。",
                    notif_title_config_error: "WinSoftVol — 配置错误",
                    notif_config_error: "config.toml: {error}\n已保留原设置，修复配置文件后生效。",
                    notif_title_device_not_found: "WinSoftVol — 未找到设备",
                    notif_device_not_found: "未找到绑定的设备 \"{name}\" — 将使用默认音频设备。",
                    notif_title_update: "WinSoftVol 有可用更新",
                    notif_update: "{tag} 已发布 — 点击打开发布页面",
                },
            Lang::ZhTw => Strings {

                    menu_about: "關於 WinSoftVol",
                    menu_autostart: "開機自動啟動",
                    menu_softvol: "強制軟體音量",
                    menu_night: "夜間模式",
                    menu_volcap: "音量上限",
                    menu_startup_vol: "啟動音量",
                    menu_off: "關閉",
                    menu_quit: "結束 WinSoftVol",

                    tooltip_active: "WinSoftVol — 執行中",
                    tooltip_volume: "{pct}% | 上限 {cap}%",
                    tooltip_muted: "已靜音 | 上限 {cap}%",

                    about_title: "關於 WinSoftVol",
                    about_body: "v{version} ({hash})\n{desc}\n\n作者:  {authors}\n建置:  {build}\n\n<a href=\"{homepage}\">專案首頁</a>\n\n如果 WinSoftVol 對你有幫助，歡迎支持它的開發。\n<a href=\"{sponsor}\">在 GitHub 上贊助 \u{2665}</a>{update}",
                    about_update: "\n\n<a href=\"{url}\">\u{1F195} 新版本 {tag} 已發布 \u{2014} 點擊下載</a>",

                    notif_title_exclusive: "WinSoftVol — 偵測到獨佔模式",
                    notif_reconnected: "USB 音訊裝置已重新連線 — 音量控制已恢復。",
                    notif_exclusive_start: "有應用程式繞過了音訊混音器，在它釋放裝置之前，音量控制不會對它生效。",
                    notif_exclusive_end: "獨佔音訊模式已結束 — 音量控制已恢復。",
                    notif_title_config_error: "WinSoftVol — 設定錯誤",
                    notif_config_error: "config.toml: {error}\n已保留原設定，修復設定檔後生效。",
                    notif_title_device_not_found: "WinSoftVol — 找不到裝置",
                    notif_device_not_found: "找不到綁定的裝置 \"{name}\" — 將使用預設音訊裝置。",
                    notif_title_update: "WinSoftVol 有新版本可用",
                    notif_update: "{tag} 已發布 — 點擊開啟發布頁面",
                },
        }
    }

    /// The stored form of this language.
    pub fn as_u8(self) -> (r: u8)
        ensures
            r == u8_of_lang(self),
    {
        match self {
            Lang::En => LANG_EN,
            Lang::ZhCn => LANG_ZH_CN,
            Lang::ZhTw => LANG_ZH_TW,
        }
    }

    /// The language a stored value stands for; unknown values read as English.
    pub fn from_u8(value: u8) -> (r: Self)
        ensures
            r == lang_of_u8(value),
    {
        if value == LANG_ZH_CN {
            Lang::ZhCn
        } else if value == LANG_ZH_TW {
            Lang::ZhTw
        } else {
            Lang::En
        }
    }
}

/// Storing a language and reading it back gives the same language.
pub proof fn lemma_lang_u8_round_trip(l: Lang)
    ensures
        lang_of_u8(u8_of_lang(l)) == l,
{
}

/// One character of a normalised language code.
fn normalize_char(c: char) -> (r: char)
    ensures
        r == normalize_code_char(c),
{
    let v = c as u32;
    if 65 <= v && v <= 90 {
        ((v + 32) as u8) as char
    } else if c == '_' {
        '-'
    } else {
        c
    }
}

/// Whether the characters `v` spell `s`.
fn chars_eq(v: &Vec<char>, s: &str) -> (r: bool)
    ensures
        r == (v@ == s@),
{
    let w = chars_of(s);
    if v.len() != w.len() {
        return false;
    }
    let mut i: usize = 0;
    while i < v.len()
        invariant
            i <= v.len(),
            v.len() == w.len(),
            w@ == s@,
            forall|k: int| 0 <= k < i ==> v@[k] == w@[k],
        decreases v.len() - i,
    {
        if v[i] != w[i] {
            return false;
        }
        i += 1;
    }
    assert(v@ =~= w@);
    true
}

/// Resolve the language to use, given an optional configured code and the
/// language detected from the system.
pub fn resolve(configured: Option<&str>, detected: Lang) -> (r: Lang)
    ensures
        r == resolved_lang(
            match configured {
                Some(c) => Some(c@),
                None => None,
            },
            detected,
        ),
{
    match configured {
        Some(code) => match Lang::from_code(code) {
            Some(l) => l,
            None => detected,
        },
        None => detected,
    }
}

/// The characters of the marker `{key}`.
fn placeholder_chars(key: &str) -> (r: Vec<char>)
    ensures
        r@ == placeholder(key@),
{
    let mut r: Vec<char> = Vec::new();
    r.push('{');
    push_str_chars(&mut r, key);
    r.push('}');
    assert(r@ =~= placeholder(key@));
    r
}

/// Replace `{key}` placeholders in a template.
pub fn fill(template: &str, values: &[(&str, &str)]) -> (r: String)
    ensures
        r@ == fill_template(template@, pairs_view(values@)),
{
    let ghost pairs = pairs_view(values@);
    let mut out = chars_of(template);
    let mut i: usize = 0;
    assert(pairs.skip(0) =~= pairs);
    while i < values.len()
        invariant
            i <= values.len(),
            pairs == pairs_view(values@),
            fill_template(out@, pairs.skip(i as int)) == fill_template(template@, pairs),
        decreases values.len() - i,
    {
        let (key, value) = values[i];
        let pat = placeholder_chars(key);
        let rep = chars_of(value);
        assert(pairs.skip(i as int)[0] == (key@, value@));
        assert(pairs.skip(i as int).drop_first() =~= pairs.skip(i + 1));
        out = replace_chars(&out, &pat, &rep);
        i += 1;
    }
    assert(pairs.skip(i as int) =~= Seq::<(Seq<char>, Seq<char>)>::empty());
    string_from_chars(&out)
}

/// The decimal representation of `n` as a string.
pub fn decimal_string(n: u32) -> (r: String)
    ensures
        r@ == text::decimal(n as nat),
{
    let mut v: Vec<char> = Vec::new();
    push_decimal(&mut v, n);
    assert(v@ =~= text::decimal(n as nat));
    string_from_chars(&v)
}

impl Strings {
    /// Tooltip text, e.g. `75% | cap: 100%`.
    pub fn tooltip(&self, pct: u32, cap: u32, muted: bool) -> (r: String)
        ensures
            r@ == fill_template(
                if muted { self.tooltip_muted@ } else { self.tooltip_volume@ },
                seq![("pct"@, text::decimal(pct as nat)), ("cap"@, text::decimal(cap as nat))],
            ),
    {
        let template = if muted {
            self.tooltip_muted
        } else {
            self.tooltip_volume
        };
        let pct_s = decimal_string(pct);
        let cap_s = decimal_string(cap);
        let ps = pct_s.as_str();
        let cs = cap_s.as_str();
        let r = fill(template, &[("pct", ps), ("cap", cs)]);
        proof {
            let values: Seq<(&str, &str)> = seq![("pct", ps), ("cap", cs)];
            assert(pairs_view(values) =~= seq![("pct"@, text::decimal(pct as nat)), ("cap"@, text::decimal(cap as nat))]);
        }
        r
    }

    /// Content of the About dialog.
    pub fn about_body(
        &self,
        version: &str,
        hash: &str,
        description: &str,
        authors: &str,
        build_time: &str,
        homepage: &str,
        sponsor: &str,
        update_line: &str,
    ) -> (r: String)
        ensures
            r@ == fill_template(
                self.about_body@,
                seq![
                    ("version"@, version@),
                    ("hash"@, hash@),
                    ("desc"@, description@),
                    ("authors"@, authors@),
                    ("build"@, build_time@),
                    ("homepage"@, homepage@),
                    ("sponsor"@, sponsor@),
                    ("update"@, update_line@),
                ],
            ),
    {
        let values = [
            ("version", version),
            ("hash", hash),
            ("desc", description),
            ("authors", authors),
            ("build", build_time),
            ("homepage", homepage),
            ("sponsor", sponsor),
            ("update", update_line),
        ];
        let r = fill(self.about_body, &values);
        assert(pairs_view(values@) =~= seq![
            ("version"@, version@),
            ("hash"@, hash@),
            ("desc"@, description@),
            ("authors"@, authors@),
            ("build"@, build_time@),
            ("homepage"@, homepage@),
            ("sponsor"@, sponsor@),
            ("update"@, update_line@),
        ]);
        r
    }

    /// "new version available" line shown at the bottom of the About dialog.
    pub fn about_update(&self, url: &str, tag: &str) -> (r: String)
        ensures
            r@ == fill_template(self.about_update@, seq![("url"@, url@), ("tag"@, tag@)]),
    {
        let values = [("url", url), ("tag", tag)];
        let r = fill(self.about_update, &values);
        assert(pairs_view(values@) =~= seq![("url"@, url@), ("tag"@, tag@)]);
        r
    }

    /// Body of the config error toast.
    pub fn config_error(&self, error: &str) -> (r: String)
        ensures
            r@ == fill_template(self.notif_config_error@, seq![("error"@, error@)]),
    {
        let values = [("error", error)];
        let r = fill(self.notif_config_error, &values);
        assert(pairs_view(values@) =~= seq![("error"@, error@)]);
        r
    }

    /// Body of the "pinned device not found" toast.
    pub fn device_not_found(&self, name: &str) -> (r: String)
        ensures
            r@ == fill_template(self.notif_device_not_found@, seq![("name"@, name@)]),
    {
        let values = [("name", name)];
        let r = fill(self.notif_device_not_found, &values);
        assert(pairs_view(values@) =~= seq![("name"@, name@)]);
        r
    }

    /// Body of the update available toast.
    pub fn update_available(&self, tag: &str) -> (r: String)
        ensures
            r@ == fill_template(self.notif_update@, seq![("tag"@, tag@)]),
    {
        let values = [("tag", tag)];
        let r = fill(self.notif_update, &values);
        assert(pairs_view(values@) =~= seq![("tag"@, tag@)]);
        r
    }
}

} // verus!
