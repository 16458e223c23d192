use winsoftvol::about::{null_terminated_utf16, release_url, update_line};
use winsoftvol::i18n::Lang;

#[test]
fn null_terminated_ends_with_zero() {
    let v = null_terminated_utf16("hello");
    assert_eq!(*v.last().unwrap(), 0u16);
}

#[test]
fn null_terminated_length_is_chars_plus_one() {
    let s = "WinSoftVol";
    let v = null_terminated_utf16(s);
    assert_eq!(v.len(), s.encode_utf16().count() + 1);
}

#[test]
fn null_terminated_empty_string() {
    let v = null_terminated_utf16("");
    assert_eq!(v, vec![0u16]);
}

#[test]
fn null_terminated_ascii_encodes_correctly() {
    let v = null_terminated_utf16("A");
    assert_eq!(v, vec![65u16, 0u16]);
}

#[test]
fn null_terminated_no_interior_nulls_for_ascii() {
    let v = null_terminated_utf16("hello");
    assert_eq!(v[..v.len() - 1].iter().filter(|&&c| c == 0).count(), 0);
}

#[test]
fn null_terminated_encodes_surrogate_pairs() {
    let v = null_terminated_utf16("a\u{1F195}\u{4E2D}");
    assert_eq!(v, vec![0x61, 0xD83C, 0xDD95, 0x4E2D, 0]);
    let expected: Vec<u16> = "a\u{1F195}\u{4E2D}".encode_utf16().chain(Some(0)).collect();
    assert_eq!(v, expected);
}

#[test]
fn release_url_points_at_tag() {
    assert_eq!(
        release_url("v1.2.3"),
        "https://github.com/jeffreytse/winsoftvol/releases/tag/v1.2.3"
    );
}

#[test]
fn update_line_empty_without_new_version() {
    let s = Lang::En.strings();
    assert_eq!(update_line(&s, None), "");
}

#[test]
fn update_line_links_release() {
    let s = Lang::En.strings();
    assert_eq!(
        update_line(&s, Some("v9.9.9")),
        "\n\n<a href=\"https://github.com/jeffreytse/winsoftvol/releases/tag/v9.9.9\">\u{1F195} New version v9.9.9 available \u{2014} click to download</a>"
    );
}
