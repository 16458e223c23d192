use winsoftvol::i18n::Lang;
use winsoftvol::notification::{
    build_toast_xml, show_config_error, show_device_not_found, show_device_reconnected,
    show_exclusive_mode_active, show_exclusive_mode_ended, show_update_available, AUMID,
};

#[test]
fn xml_contains_duration_short() {
    let xml = build_toast_xml("T", "B");
    assert!(xml.contains("duration=\"short\""));
}

#[test]
fn xml_contains_toast_generic_template() {
    let xml = build_toast_xml("T", "B");
    assert!(xml.contains("template=\"ToastGeneric\""));
}

#[test]
fn xml_title_appears_before_body() {
    let xml = build_toast_xml("TITLE", "BODY");
    let title_pos = xml.find("TITLE").unwrap();
    let body_pos = xml.find("BODY").unwrap();
    assert!(title_pos < body_pos);
}

#[test]
fn xml_wraps_title_in_text_tag() {
    let xml = build_toast_xml("Hello", "World");
    assert!(xml.contains("<text>Hello</text>"));
}

#[test]
fn xml_wraps_body_in_text_tag() {
    let xml = build_toast_xml("Hello", "World");
    assert!(xml.contains("<text>World</text>"));
}

#[test]
fn xml_has_correct_nesting() {
    let xml = build_toast_xml("T", "B");
    // toast > visual > binding > text
    assert!(xml.starts_with("<toast"));
    assert!(xml.contains("<visual>"));
    assert!(xml.contains("<binding "));
    assert!(xml.ends_with("</toast>"));
}

#[test]
fn aumid_is_winsoftvol() {
    assert_eq!(AUMID, "WinSoftVol");
}

#[test]
fn xml_exact_document() {
    assert_eq!(
        build_toast_xml("T", "B"),
        "<toast duration=\"short\"><visual><binding template=\"ToastGeneric\"><text>T</text><text>B</text></binding></visual></toast>"
    );
}

#[test]
fn reconnected_toast_uses_app_title() {
    let s = Lang::En.strings();
    assert_eq!(
        show_device_reconnected(&s),
        build_toast_xml("WinSoftVol", "USB audio device reconnected — volume control restored.")
    );
}

#[test]
fn exclusive_toasts() {
    let s = Lang::ZhTw.strings();
    assert_eq!(
        show_exclusive_mode_active(&s),
        build_toast_xml(s.notif_title_exclusive, s.notif_exclusive_start)
    );
    assert_eq!(
        show_exclusive_mode_ended(&s),
        build_toast_xml("WinSoftVol", s.notif_exclusive_end)
    );
}

#[test]
fn config_error_toast_truncates_to_200_chars() {
    let s = Lang::En.strings();
    let long: String = std::iter::repeat('é').take(250).collect();
    let short: String = std::iter::repeat('é').take(200).collect();
    let xml = show_config_error(&s, &long);
    let expected_body = format!(
        "config.toml: {short}\nPrevious settings kept. Fix the file to apply changes."
    );
    assert_eq!(xml, build_toast_xml("WinSoftVol — Config Error", &expected_body));
}

#[test]
fn config_error_toast_keeps_short_message() {
    let s = Lang::En.strings();
    let xml = show_config_error(&s, "bad key");
    assert!(xml.contains("config.toml: bad key\n"));
}

#[test]
fn device_not_found_toast_names_device() {
    let s = Lang::En.strings();
    assert_eq!(
        show_device_not_found(&s, "Speakers"),
        build_toast_xml(
            "WinSoftVol — Device Not Found",
            "Pinned device \"Speakers\" not found — using default audio device."
        )
    );
}

#[test]
fn update_toast_launches_url() {
    let s = Lang::En.strings();
    let xml = show_update_available(&s, "v2.0.0", "https://example.org/r");
    assert_eq!(
        xml,
        "<toast launch=\"https://example.org/r\" activationType=\"protocol\" duration=\"short\"><visual><binding template=\"ToastGeneric\"><text>WinSoftVol Update Available</text><text>v2.0.0 is ready — click to open release page</text></binding></visual></toast>"
    );
}
