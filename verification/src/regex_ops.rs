//! The regular-expression replace the `Replace` node performs, behind a
//! trusted wrapper: compilation validity and the replaced text are pure
//! functions of the pattern, text and replacement.
use vstd::prelude::*;

verus! {

/// Whether the pattern compiles as a regular expression.
pub uninterp spec fn regex_compiles(pat: Seq<char>) -> bool;

/// The text with the leftmost match of the pattern replaced by the
/// replacement (with its capture-group references expanded); the text
/// unchanged when nothing matches.
pub uninterp spec fn regex_replace_first(
    pat: Seq<char>,
    text: Seq<char>,
    repl: Seq<char>,
) -> Seq<char>;

/// Relies on `regex::Regex::new` and `regex::Regex::replace`: whether a
/// pattern compiles depends on the pattern alone, and `replace`
/// substitutes the replacement for the leftmost match of the compiled
/// pattern, deterministically in its three inputs.
#[verifier::external_body]
pub fn replace_first(pattern: &str, text: &str, repl: &str) -> (r: Option<String>)
    ensures
        r is Some <==> regex_compiles(pattern@),
        r matches Some(s) ==> s@ == regex_replace_first(pattern@, text@, repl@),
{
    match regex::Regex::new(pattern) {
        Ok(re) => Some(re.replace(text, repl).to_string()),
        Err(_) => None,
    }
}

/// The UTF-8 encoding of a character sequence.
pub uninterp spec fn utf8_bytes_of(s: Seq<char>) -> Seq<u8>;

/// Relies on `str::as_bytes` / `Vec::from`: the UTF-8 bytes of the
/// string, a pure function of its characters.
#[verifier::external_body]
pub fn string_to_bytes(s: &str) -> (r: Vec<u8>)
    ensures
        r@ == utf8_bytes_of(s@),
{
    s.as_bytes().to_vec()
}

/// Whether a byte sequence is valid UTF-8.
pub uninterp spec fn utf8_valid(b: Seq<u8>) -> bool;

/// The characters a valid UTF-8 byte sequence decodes to.
pub uninterp spec fn utf8_chars_of(b: Seq<u8>) -> Seq<char>;

/// Relies on `String::from_utf8`: decoding succeeds exactly on valid
/// UTF-8 and yields its characters, a pure function of the bytes.
#[verifier::external_body]
pub fn bytes_to_string(b: Vec<u8>) -> (r: Option<String>)
    ensures
        r is Some <==> utf8_valid(b@),
        r matches Some(s) ==> s@ == utf8_chars_of(b@),
{
    match String::from_utf8(b) {
        Ok(s) => Some(s),
        Err(_) => None,
    }
}

} // verus!
