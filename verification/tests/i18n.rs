use winsoftvol::i18n::{decimal_string, fill, resolve, Lang, LANG_EN, LANG_ZH_CN, LANG_ZH_TW};

#[test]
fn from_code_parses_supported_codes() {
    assert_eq!(Lang::from_code("en"), Some(Lang::En));
    assert_eq!(Lang::from_code("EN-US"), Some(Lang::En));
    assert_eq!(Lang::from_code("zh-CN"), Some(Lang::ZhCn));
    assert_eq!(Lang::from_code("zh_Hans"), Some(Lang::ZhCn));
    assert_eq!(Lang::from_code("zh-TW"), Some(Lang::ZhTw));
    assert_eq!(Lang::from_code("zh-Hant"), Some(Lang::ZhTw));
    assert_eq!(Lang::from_code("fr"), None);
}

#[test]
fn all_languages_have_non_empty_strings() {
    for lang in [Lang::En, Lang::ZhCn, Lang::ZhTw] {
        let s = lang.strings();
        assert!(!s.menu_about.is_empty());
        assert!(!s.menu_softvol.is_empty());
        assert!(!s.about_body.is_empty());
        assert!(!s.notif_reconnected.is_empty());
        assert!(!s.notif_device_not_found.is_empty());
    }
}

#[test]
fn tooltip_fills_placeholders() {
    let en = Lang::En.strings();
    assert_eq!(en.tooltip(50, 100, false), "50% | cap: 100%");
    assert_eq!(en.tooltip(0, 80, true), "Muted | cap: 80%");

    let zh = Lang::ZhCn.strings();
    assert_eq!(zh.tooltip(50, 100, false), "50% | 上限 100%");
    assert_eq!(zh.tooltip(0, 80, true), "已静音 | 上限 80%");
}

#[test]
fn resolve_prefers_configured_language() {
    assert_eq!(resolve(Some("zh-TW"), Lang::En), Lang::ZhTw);
    assert_eq!(resolve(Some("zh-CN"), Lang::En), Lang::ZhCn);
}

#[test]
fn about_body_fills_all_placeholders() {
    let s = Lang::ZhCn.strings();
    let body = s.about_body(
        "0.3.2", "abc1234", "desc", "author", "2026-01-01", "https://home", "https://sponsor", "",
    );
    assert!(!body.contains('{'));
    assert!(body.contains("0.3.2"));
    assert!(body.contains("https://home"));
}

#[test]
fn from_code_trims_and_folds_case() {
    assert_eq!(Lang::from_code("  ZH_hk\t"), Some(Lang::ZhTw));
    assert_eq!(Lang::from_code("\u{3000}en-GB\u{3000}"), Some(Lang::En));
    assert_eq!(Lang::from_code("zh-SG"), Some(Lang::ZhCn));
    assert_eq!(Lang::from_code("zh-mo"), Some(Lang::ZhTw));
    assert_eq!(Lang::from_code("Zh"), Some(Lang::ZhCn));
    assert_eq!(Lang::from_code(""), None);
    assert_eq!(Lang::from_code("en us"), None);
    assert_eq!(Lang::from_code("zh-tw-x"), None);
}

#[test]
fn resolve_falls_back_to_detected() {
    assert_eq!(resolve(None, Lang::ZhTw), Lang::ZhTw);
    assert_eq!(resolve(Some("klingon"), Lang::ZhCn), Lang::ZhCn);
    assert_eq!(resolve(Some("en"), Lang::ZhCn), Lang::En);
}

#[test]
fn from_langid_maps_chinese_locales() {
    assert_eq!(Lang::from_langid(0x0804), Lang::ZhCn);
    assert_eq!(Lang::from_langid(0x1004), Lang::ZhCn);
    assert_eq!(Lang::from_langid(0x0404), Lang::ZhTw);
    assert_eq!(Lang::from_langid(0x0C04), Lang::ZhTw);
    assert_eq!(Lang::from_langid(0x1404), Lang::ZhTw);
    assert_eq!(Lang::from_langid(0x0409), Lang::En);
    assert_eq!(Lang::from_langid(0x0411), Lang::En);
}

#[test]
fn stored_language_round_trips() {
    for lang in [Lang::En, Lang::ZhCn, Lang::ZhTw] {
        assert_eq!(Lang::from_u8(lang.as_u8()), lang);
    }
    assert_eq!(Lang::En.as_u8(), LANG_EN);
    assert_eq!(Lang::ZhCn.as_u8(), LANG_ZH_CN);
    assert_eq!(Lang::ZhTw.as_u8(), LANG_ZH_TW);
    assert_eq!(Lang::from_u8(200), Lang::En);
}

#[test]
fn tooltip_traditional_chinese_and_extremes() {
    let tw = Lang::ZhTw.strings();
    assert_eq!(tw.tooltip(7, 10, false), "7% | 上限 10%");
    assert_eq!(tw.tooltip(1, 100, true), "已靜音 | 上限 100%");
    let en = Lang::En.strings();
    assert_eq!(en.tooltip(u32::MAX, 0, false), "4294967295% | cap: 0%");
}

#[test]
fn decimal_string_matches_display() {
    for n in [0u32, 5, 9, 10, 99, 100, 1234567, u32::MAX] {
        assert_eq!(decimal_string(n), n.to_string());
    }
}

#[test]
fn fill_replaces_every_occurrence_in_order() {
    assert_eq!(fill("{a}-{a}-{b}", &[("a", "1"), ("b", "2")]), "1-1-2");
    assert_eq!(fill("{a}", &[("a", "{b}"), ("b", "x")]), "x");
    assert_eq!(fill("{{a}}", &[("a", "z")]), "{z}");
    assert_eq!(fill("no markers", &[("a", "z")]), "no markers");
}

#[test]
fn about_update_and_toast_bodies() {
    let en = Lang::En.strings();
    assert_eq!(
        en.about_update("https://u", "v1"),
        "\n\n<a href=\"https://u\">\u{1F195} New version v1 available \u{2014} click to download</a>"
    );
    assert_eq!(en.update_available("v1"), "v1 is ready — click to open release page");
    assert_eq!(
        en.device_not_found("X"),
        "Pinned device \"X\" not found — using default audio device."
    );
    assert_eq!(
        en.config_error("oops"),
        "config.toml: oops\nPrevious settings kept. Fix the file to apply changes."
    );
}

#[test]
fn about_body_english_exact() {
    let en = Lang::En.strings();
    let body = en.about_body("1", "h", "d", "a", "b", "H", "S", "U");
    assert_eq!(
        body,
        "v1 (h)\nd\n\nAuthor:  a\nBuilt:   b\n\n<a href=\"H\">Project Homepage</a>\n\nIf you find WinSoftVol useful, please consider supporting its development.\n<a href=\"S\">Sponsor on GitHub \u{2665}</a>U"
    );
}
