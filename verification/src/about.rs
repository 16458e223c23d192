//! Text of the About dialog and the UTF-16 form that Windows dialogs take.
use vstd::prelude::*;
use crate::i18n;
use crate::i18n::Strings;
use crate::text::{push_str_chars, string_from_chars};

verus! {

/// The page of release `tag` of the project.
pub open spec fn release_url_of(tag: Seq<char>) -> Seq<char> {
    "https://github.com/jeffreytse/winsoftvol/releases/tag/"@ + tag
}

/// The UTF-16 code units of one character.
pub open spec fn utf16_of_char(c: char) -> Seq<u16> {
    let v = c as u32;
    if v < 0x10000 {
        seq![v as u16]
    } else {
        let w = (v - 0x10000) as u32;
        seq![(0xD800 + w / 0x400) as u16, (0xDC00 + w % 0x400) as u16]
    }
}

/// The UTF-16 encoding of `s` (what `str::encode_utf16` yields).
pub open spec fn utf16_encode(s: Seq<char>) -> Seq<u16>
    decreases s.len(),
{
    if s.len() == 0 {
        Seq::empty()
    } else {
        utf16_encode(s.drop_last()) + utf16_of_char(s.last())
    }
}

/// The UTF-16 encoding of `s` followed by a terminating zero.
pub fn null_terminated_utf16(s: &str) -> (r: Vec<u16>)
    ensures
        r@ == utf16_encode(s@).push(0),
{
    let mut out: Vec<u16> = Vec::new();
    for c in it: s.chars()
        invariant
            it.seq() == s@,
            out@ == utf16_encode(it.seq().take(it.index() as int)),
    {
        let ghost before = it.seq().take(it.index() as int);
        let v = c as u32;
        if v < 0x10000 {
            out.push(v as u16);
        } else {
            let w = v - 0x10000;
            out.push((0xD800 + w / 0x400) as u16);
            out.push((0xDC00 + w % 0x400) as u16);
        }
        proof {
            let after = it.seq().take(it.index() + 1);
            assert(after.drop_last() =~= before);
            assert(after.last() == c);
            assert(out@ =~= utf16_encode(before) + utf16_of_char(c));
        }
    }
    assert(s@.take(s@.len() as int) =~= s@);
    out.push(0);
    out
}

/// No code unit of the encoding is zero unless the text holds the character
/// U+0000: the terminating zero is the only zero of a text without it.
pub proof fn lemma_utf16_zero_free(s: Seq<char>)
    requires
        forall|i: int| 0 <= i < s.len() ==> s[i] as u32 != 0,
    ensures
        forall|j: int| 0 <= j < utf16_encode(s).len() ==> utf16_encode(s)[j] != 0,
    decreases s.len(),
{
    if s.len() > 0 {
        let init = s.drop_last();
        assert forall|i: int| 0 <= i < init.len() implies init[i] as u32 != 0 by {
            assert(init[i] == s[i]);
        }
        lemma_utf16_zero_free(init);
        let e = utf16_encode(init);
        let c = s.last();
        assert(s[s.len() - 1] as u32 != 0);
        let v = c as u32;
        lemma_char_bound(c);
        if v < 0x10000 {
            assert(utf16_of_char(c)[0] != 0);
        } else {
            let w = (v - 0x10000) as u32;
            assert(w / 0x400 <= 0x3FF);
            assert(utf16_of_char(c)[0] == (0xD800 + w / 0x400) as u16);
            assert(utf16_of_char(c)[0] != 0);
            assert(utf16_of_char(c)[1] != 0);
        }
        assert forall|j: int| 0 <= j < utf16_encode(s).len() implies utf16_encode(s)[j] != 0 by {
            if j >= e.len() {
                assert(utf16_encode(s)[j] == utf16_of_char(c)[j - e.len()]);
            } else {
                assert(utf16_encode(s)[j] == e[j]);
            }
        }
    }
}

/// Every character is at most U+10FFFF.
proof fn lemma_char_bound(c: char)
    ensures
        c as u32 <= 0x10FFFF,
{
    assert(c as int <= 0x10FFFF);
}

/// Each character of an ASCII or other Basic Multilingual Plane text takes
/// one code unit.
pub proof fn lemma_utf16_bmp_len(s: Seq<char>)
    requires
        forall|i: int| 0 <= i < s.len() ==> (s[i] as u32) < 0x10000,
    ensures
        utf16_encode(s).len() == s.len(),
    decreases s.len(),
{
    if s.len() > 0 {
        let init = s.drop_last();
        assert forall|i: int| 0 <= i < init.len() implies (init[i] as u32) < 0x10000 by {
            assert(init[i] == s[i]);
        }
        lemma_utf16_bmp_len(init);
        assert((s[s.len() - 1] as u32) < 0x10000);
    }
}

/// The page of release `tag` of the project.
pub fn release_url(tag: &str) -> (r: String)
    ensures
        r@ == release_url_of(tag@),
{
    let mut v: Vec<char> = Vec::new();
    push_str_chars(&mut v, "https://github.com/jeffreytse/winsoftvol/releases/tag/");
    push_str_chars(&mut v, tag);
    string_from_chars(&v)
}

/// The "new version available" line of the About dialog: empty when no newer
/// release is known.
pub fn update_line(s: &Strings, latest_version: Option<&str>) -> (r: String)
    ensures
        r@ == match latest_version {
            Some(tag) => i18n::fill_template(
                s.about_update@,
                seq![("url"@, release_url_of(tag@)), ("tag"@, tag@)],
            ),
            None => Seq::<char>::empty(),
        },
{
    match latest_version {
        Some(tag) => {
            let url = release_url(tag);
            s.about_update(url.as_str(), tag)
        },
        None => String::new(),
    }
}

} // verus!
