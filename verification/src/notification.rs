//! The toast notifications: their XML documents, built from the active
//! language's strings.
use vstd::prelude::*;
use crate::i18n;
use crate::i18n::Strings;
use crate::text::{push_str_chars, string_from_chars};

verus! {

/// The application user model id that toasts are shown under.
pub const AUMID: &'static str = "WinSoftVol";

/// The title of toasts that carry no title of their own.
pub const TITLE_APP: &'static str = "WinSoftVol";

/// The longest error text, in characters, that a config error toast shows.
pub const CONFIG_ERROR_MAX_CHARS: usize = 200;

/// The toast document with a title line and a body line.
pub open spec fn toast_xml(title: Seq<char>, body: Seq<char>) -> Seq<char> {
    "<toast duration=\"short\"><visual><binding template=\"ToastGeneric\"><text>"@ + title
        + "</text><text>"@ + body + "</text></binding></visual></toast>"@
}

/// The update toast document: clicking it opens `url`.
pub open spec fn update_toast_xml(url: Seq<char>, title: Seq<char>, body: Seq<char>) -> Seq<char> {
    "<toast launch=\""@ + url + "\" activationType=\"protocol\" duration=\"short\"><visual><binding template=\"ToastGeneric\"><text>"@
        + title + "</text><text>"@ + body + "</text></binding></visual></toast>"@
}

/// The toast document with a title line and a body line.
pub fn build_toast_xml(title: &str, body: &str) -> (r: String)
    ensures
        r@ == toast_xml(title@, body@),
{
    let mut v: Vec<char> = Vec::new();
    push_str_chars(&mut v, "<toast duration=\"short\"><visual><binding template=\"ToastGeneric\"><text>");
    push_str_chars(&mut v, title);
    push_str_chars(&mut v, "</text><text>");
    push_str_chars(&mut v, body);
    push_str_chars(&mut v, "</text></binding></visual></toast>");
    string_from_chars(&v)
}

/// The toast that tells the device came back.
pub fn show_device_reconnected(s: &Strings) -> (r: String)
    ensures
        r@ == toast_xml(TITLE_APP@, s.notif_reconnected@),
{
    build_toast_xml(TITLE_APP, s.notif_reconnected)
}

/// The toast that reports a configuration error: at most the first 200
/// characters of `msg`, in the config error template.
pub fn show_config_error(s: &Strings, msg: &str) -> (r: String)
    ensures
        r@ == toast_xml(
            s.notif_title_config_error@,
            i18n::fill_template(
                s.notif_config_error@,
                seq![("error"@, msg@.take(if msg@.len() < 200 { msg@.len() as int } else { 200 }))],
            ),
        ),
{
    let mut v: Vec<char> = Vec::new();
    let mut k: usize = 0;
    for c in it: msg.chars()
        invariant
            it.seq() == msg@,
            k == if it.index() < 200 { it.index() as int } else { 200 },
            v@ == msg@.take(k as int),
    {
        if k < CONFIG_ERROR_MAX_CHARS {
            v.push(c);
            k += 1;
        }
        assert(v@ =~= msg@.take(k as int));
    }
    let truncated = string_from_chars(&v);
    let body = s.config_error(truncated.as_str());
    build_toast_xml(s.notif_title_config_error, body.as_str())
}

/// The toast that tells an app took the device exclusively.
pub fn show_exclusive_mode_active(s: &Strings) -> (r: String)
    ensures
        r@ == toast_xml(s.notif_title_exclusive@, s.notif_exclusive_start@),
{
    build_toast_xml(s.notif_title_exclusive, s.notif_exclusive_start)
}

/// The toast that tells exclusive mode ended.
pub fn show_exclusive_mode_ended(s: &Strings) -> (r: String)
    ensures
        r@ == toast_xml(TITLE_APP@, s.notif_exclusive_end@),
{
    build_toast_xml(TITLE_APP, s.notif_exclusive_end)
}

/// The toast that tells the pinned device `name` was not found.
pub fn show_device_not_found(s: &Strings, name: &str) -> (r: String)
    ensures
        r@ == toast_xml(
            s.notif_title_device_not_found@,
            i18n::fill_template(s.notif_device_not_found@, seq![("name"@, name@)]),
        ),
{
    let body = s.device_not_found(name);
    build_toast_xml(s.notif_title_device_not_found, body.as_str())
}

/// The toast that announces release `tag`; clicking it opens `url`.
pub fn show_update_available(s: &Strings, tag: &str, url: &str) -> (r: String)
    ensures
        r@ == update_toast_xml(
            url@,
            s.notif_title_update@,
            i18n::fill_template(s.notif_update@, seq![("tag"@, tag@)]),
        ),
{
    let body = s.update_available(tag);
    let mut v: Vec<char> = Vec::new();
    push_str_chars(&mut v, "<toast launch=\"");
    push_str_chars(&mut v, url);
    push_str_chars(
        &mut v,
        "\" activationType=\"protocol\" duration=\"short\"><visual><binding template=\"ToastGeneric\"><text>",
    );
    push_str_chars(&mut v, s.notif_title_update);
    push_str_chars(&mut v, "</text><text>");
    push_str_chars(&mut v, body.as_str());
    push_str_chars(&mut v, "</text></binding></visual></toast>");
    string_from_chars(&v)
}

} // verus!
