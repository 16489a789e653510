//! Character classes used across the validators, the detector and the
//! sanitizer: Unicode whitespace (the `White_Space` set), control characters
//! (the `Cc` category), the character class accepted in paths, and ASCII
//! lower-casing for case-insensitive matching.
use vstd::prelude::*;

verus! {

/// A Unicode whitespace character (the `White_Space` property): what both
/// trimming and the detector's word separators treat as a space.
pub open spec fn is_space_char(c: char) -> bool {
    c == ' ' || c == '\t' || c == '\n' || c == '\u{0b}' || c == '\u{0c}' || c == '\r'
        || c == '\u{85}' || c == '\u{a0}' || c == '\u{1680}'
        || ('\u{2000}' as u32 <= c as u32 && c as u32 <= '\u{200a}' as u32)
        || c == '\u{2028}' || c == '\u{2029}' || c == '\u{202f}' || c == '\u{205f}'
        || c == '\u{3000}'
}

pub fn space_char(c: char) -> (b: bool)
    ensures
        b == is_space_char(c),
{
    c == ' ' || c == '\t' || c == '\n' || c == '\u{0b}' || c == '\u{0c}' || c == '\r'
        || c == '\u{85}' || c == '\u{a0}' || c == '\u{1680}'
        || ('\u{2000}' <= c && c <= '\u{200a}')
        || c == '\u{2028}' || c == '\u{2029}' || c == '\u{202f}' || c == '\u{205f}'
        || c == '\u{3000}'
}

/// A control character (the `Cc` category): stripped by the sanitizer unless
/// it is a newline or a horizontal tab.
pub open spec fn is_control_char(c: char) -> bool {
    (c as u32) < 0x20 || (0x7f <= c as u32 && c as u32 <= 0x9f)
}

pub fn control_char(c: char) -> (b: bool)
    ensures
        b == is_control_char(c),
{
    c < ' ' || ('\u{7f}' <= c && c <= '\u{9f}')
}

/// ASCII lower-casing of a single character; everything outside `A`-`Z` is
/// left alone. Pattern matching compares `lower(c)` against lower-case
/// pattern text.
pub open spec fn lower(c: char) -> char {
    if 'A' as u32 <= c as u32 && c as u32 <= 'Z' as u32 {
        ((c as u32 + 0x20) as char)
    } else {
        c
    }
}

pub fn lower_char(c: char) -> (r: char)
    ensures
        r == lower(c),
{
    if 'A' <= c && c <= 'Z' {
        let n: u32 = c as u32 + 0x20;
        assert(0x61 <= n <= 0x7a);
        char_from_u32(n)
    } else {
        c
    }
}

/// A character accepted in a path-like string: ASCII letters and digits,
/// `/`, `-`, `_`, `.` and `~`.
pub open spec fn is_path_char(c: char) -> bool {
    ('a' as u32 <= c as u32 && c as u32 <= 'z' as u32)
        || ('A' as u32 <= c as u32 && c as u32 <= 'Z' as u32)
        || ('0' as u32 <= c as u32 && c as u32 <= '9' as u32)
        || c == '/' || c == '-' || c == '_' || c == '.' || c == '~'
}

pub fn path_char(c: char) -> (b: bool)
    ensures
        b == is_path_char(c),
{
    ('a' <= c && c <= 'z') || ('A' <= c && c <= 'Z') || ('0' <= c && c <= '9')
        || c == '/' || c == '-' || c == '_' || c == '.' || c == '~'
}

/// A word character as the persona pattern understands it: an ASCII letter,
/// digit or underscore.
pub open spec fn is_word_char(c: char) -> bool {
    ('a' as u32 <= c as u32 && c as u32 <= 'z' as u32)
        || ('A' as u32 <= c as u32 && c as u32 <= 'Z' as u32)
        || ('0' as u32 <= c as u32 && c as u32 <= '9' as u32)
        || c == '_'
}

pub fn word_char(c: char) -> (b: bool)
    ensures
        b == is_word_char(c),
{
    ('a' <= c && c <= 'z') || ('A' <= c && c <= 'Z') || ('0' <= c && c <= '9') || c == '_'
}

/// Relies on `char::from_u32`: a value below the surrogate range is a valid
/// scalar and converts to the character with that code point.
#[verifier::external_body]
fn char_from_u32(n: u32) -> (c: char)
    requires
        n < 0xd800,
    ensures
        c == (n as char),
{
    match char::from_u32(n) {
        Some(c) => c,
        None => ' ',
    }
}

} // verus!
