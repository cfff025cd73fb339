//! Text as it stands in a Vorbis comment: UTF-8 bytes, a `=` between key and
//! value, and keys that are compared without regard to ASCII case.

use vstd::prelude::*;
use vstd::std_specs::iter::IteratorSpec;
use vstd::string::StrSliceExecFns;
use vstd::utf8::decode_utf8;
use vstd::utf8::valid_utf8;
use std::string::FromUtf8Error;

verus! {

/// The error of `String::from_utf8`. Nothing is claimed of what it holds.
#[verifier::external_type_specification]
#[verifier::external_body]
pub struct ExFromUtf8Error(FromUtf8Error);

/// `String::from_utf8` of the standard library. It succeeds exactly on the
/// byte strings that are well-formed UTF-8, and the string it then gives
/// holds the characters that those bytes encode.
pub assume_specification[ String::from_utf8 ](vec: Vec<u8>) -> (result: Result<
    String,
    FromUtf8Error,
>)
    ensures
        result is Ok <==> valid_utf8(vec@),
        result matches Ok(text) ==> text@ == decode_utf8(vec@),
;

/// The separator between the key and the value of a comment field.
pub const SEPARATOR: char = '=';

/// The characters that the bytes encode, where they are well-formed UTF-8.
pub open spec fn text_of(bytes: Seq<u8>) -> Option<Seq<char>> {
    if valid_utf8(bytes) {
        Some(decode_utf8(bytes))
    } else {
        None
    }
}

/// `index` is the place of the first separator in `text`.
pub open spec fn is_separator_index(text: Seq<char>, index: int) -> bool {
    &&& 0 <= index < text.len()
    &&& text[index] == SEPARATOR
    &&& forall|j: int| 0 <= j < index ==> text[j] != SEPARATOR
}

/// The place of the first separator in `text`, if it has one.
pub open spec fn separator_index(text: Seq<char>) -> Option<int> {
    if exists|index: int| is_separator_index(text, index) {
        Some(choose|index: int| is_separator_index(text, index))
    } else {
        None
    }
}

/// A text has at most one first separator.
pub proof fn lemma_separator_index_unique(text: Seq<char>, index: int)
    requires
        is_separator_index(text, index),
    ensures
        separator_index(text) == Some(index),
{
    let chosen = choose|i: int| is_separator_index(text, i);
    assert(is_separator_index(text, chosen));
    if chosen < index {
        assert(text[chosen] != SEPARATOR);
    } else if index < chosen {
        assert(text[index] != SEPARATOR);
    }
}

/// A text without a separator has no first separator.
pub proof fn lemma_separator_index_none(text: Seq<char>)
    requires
        forall|j: int| 0 <= j < text.len() ==> text[j] != SEPARATOR,
    ensures
        separator_index(text) is None,
{
    if exists|index: int| is_separator_index(text, index) {
        let chosen = choose|i: int| is_separator_index(text, i);
        assert(text[chosen] != SEPARATOR);
    }
}

/// The lower-case form of an ASCII capital letter; any other character
/// as it is.
pub open spec fn ascii_lower(c: char) -> char {
    if 'A' <= c && c <= 'Z' {
        ((c as u32) + 32) as char
    } else {
        c
    }
}

/// The text with its ASCII capital letters in lower case.
pub open spec fn ascii_lowercase(text: Seq<char>) -> Seq<char> {
    text.map_values(|c: char| ascii_lower(c))
}

/// Reads bytes as UTF-8 text; `None` where they are not well-formed.
pub fn decode_text(bytes: Vec<u8>) -> (text: Option<String>)
    ensures
        match text {
            Some(text) => text_of(bytes@) == Some(text@),
            None => text_of(bytes@) is None,
        },
{
    match String::from_utf8(bytes) {
        Ok(text) => Some(text),
        Err(_) => None,
    }
}

/// Finds the first separator of a text, counted in characters.
pub fn find_separator(text: &str) -> (found: Option<usize>)
    ensures
        match found {
            Some(index) => separator_index(text@) == Some(index as int),
            None => separator_index(text@) is None,
        },
{
    let total = text.unicode_len();
    let mut chars = text.chars();
    let mut index: usize = 0;
    loop
        invariant
            total == text@.len(),
            chars.obeys_prophetic_iter_laws(),
            index <= total,
            chars.remaining() == text@.subrange(index as int, text@.len() as int),
            forall|j: int| 0 <= j < index ==> text@[j] != SEPARATOR,
        decreases total - index,
    {
        match chars.next() {
            Some(c) => {
                if c == SEPARATOR {
                    proof {
                        lemma_separator_index_unique(text@, index as int);
                    }
                    return Some(index);
                }
                index += 1;
            },
            None => {
                proof {
                    lemma_separator_index_none(text@);
                }
                return None;
            },
        }
    }
}

/// Whether `c`, with an ASCII capital letter taken in lower case, is `lower`.
fn lower_is(c: char, lower: char) -> (same: bool)
    ensures
        same == (ascii_lower(c) == lower),
{
    if 'A' <= c && c <= 'Z' {
        (c as u32) + 32 == (lower as u32)
    } else {
        c == lower
    }
}

/// Whether `key`, with its ASCII capital letters taken in lower case,
/// reads `name`.
pub fn key_is(key: &str, name: &str) -> (same: bool)
    ensures
        same == (ascii_lowercase(key@) == name@),
{
    let total = name.unicode_len();
    if key.unicode_len() != total {
        return false;
    }
    let mut key_chars = key.chars();
    let mut name_chars = name.chars();
    let mut index: usize = 0;
    while index < total
        invariant
            total == name@.len(),
            total == key@.len(),
            index <= total,
            key_chars.obeys_prophetic_iter_laws(),
            name_chars.obeys_prophetic_iter_laws(),
            key_chars.remaining() == key@.subrange(index as int, key@.len() as int),
            name_chars.remaining() == name@.subrange(index as int, name@.len() as int),
            forall|j: int| 0 <= j < index ==> ascii_lower(key@[j]) == name@[j],
        decreases total - index,
    {
        let key_char = key_chars.next();
        let name_char = name_chars.next();
        match (key_char, name_char) {
            (Some(k), Some(n)) => {
                if !lower_is(k, n) {
                    assert(ascii_lowercase(key@)[index as int] != name@[index as int]);
                    return false;
                }
            },
            _ => {
                assert(false);
            },
        }
        index += 1;
    }
    assert(ascii_lowercase(key@) =~= name@);
    true
}

} // verus!
