//! Characters and strings: what the tokenizer and the parser need from `std`.

use vstd::prelude::*;

verus! {

/// Whether a character beyond ASCII is alphanumeric in the sense of Unicode,
/// as `char::is_alphanumeric` decides it.
pub uninterp spec fn alphanumeric(c: char) -> bool;

/// Whether a character beyond ASCII is alphabetic in the sense of Unicode, as
/// `char::is_alphabetic` decides it.
pub uninterp spec fn alphabetic(c: char) -> bool;

pub open spec fn is_ascii(c: char) -> bool {
    (c as u32) < 128
}

pub open spec fn is_ascii_letter(c: char) -> bool {
    'a' <= c <= 'z' || 'A' <= c <= 'Z'
}

pub open spec fn is_ascii_digit(c: char) -> bool {
    '0' <= c <= '9'
}

/// A character of an identifier: an ASCII letter or digit, or a character
/// beyond ASCII that Unicode counts as alphanumeric.
pub open spec fn is_word_char(c: char) -> bool {
    if is_ascii(c) {
        is_ascii_letter(c) || is_ascii_digit(c)
    } else {
        alphanumeric(c)
    }
}

/// A letter: an ASCII letter, or a character beyond ASCII that Unicode counts
/// as alphabetic.
pub open spec fn is_letter_char(c: char) -> bool {
    if is_ascii(c) {
        is_ascii_letter(c)
    } else {
        alphabetic(c)
    }
}

/// `char::is_alphanumeric`. Of the ASCII characters, the letters and the
/// digits are alphanumeric and no others; beyond ASCII the result is a
/// function of the character alone, which has the name `alphanumeric`.
pub assume_specification[ char::is_alphanumeric ](c: char) -> (r: bool)
    ensures
        r == (if is_ascii(c) {
            is_ascii_letter(c) || is_ascii_digit(c)
        } else {
            alphanumeric(c)
        }),
;

/// `char::is_alphabetic`. Of the ASCII characters, the letters are alphabetic
/// and no others; beyond ASCII the result is a function of the character
/// alone, which has the name `alphabetic`.
pub assume_specification[ char::is_alphabetic ](c: char) -> (r: bool)
    ensures
        r == (if is_ascii(c) {
            is_ascii_letter(c)
        } else {
            alphabetic(c)
        }),
;

/// `==` on string slices: they are equal when they hold the same characters.
pub assume_specification[ <str as PartialEq>::eq ](a: &str, b: &str) -> (r: bool)
    ensures
        r == (a@ == b@),
;

/// `String::push`: the character is added at the end.
pub assume_specification[ String::push ](s: &mut String, ch: char)
    ensures
        final(s)@ == old(s)@.push(ch),
;

/// The text that `{:?}` writes for a string slice: the characters between
/// double quotes, escaped as `{:?}` escapes them.
pub uninterp spec fn quoted(s: Seq<char>) -> Seq<char>;

/// `{:?}` on a string slice. The result is a function of the characters
/// alone, which has the name `quoted`.
#[verifier::external_body]
pub(crate) fn quote(s: &str) -> (r: String)
    ensures
        r@ == quoted(s@),
{
    format!("{:?}", s)
}

/// The characters of `s`, in order.
pub fn chars_of(s: &str) -> (v: Vec<char>)
    ensures
        v@ == s@,
{
    let mut v: Vec<char> = Vec::new();
    let it = s.chars();
    for c in iter: it
        invariant
            iter.seq() == s@,
            v@ == iter.seq().take(iter.index() as int),
    {
        v.push(c);
    }
    v
}

} // verus!
