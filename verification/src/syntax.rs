//! What may stand in a header name, in a header value and in the address of a
//! request.

use crate::error::StorageError;
use vstd::prelude::*;

verus! {

/// The longest header name, in characters, that can be sent.
pub const MAX_NAME_LEN: usize = 65535;

/// Whether `c` is an ASCII letter or digit.
pub open spec fn is_alphanumeric(c: char) -> bool {
    ('a' <= c <= 'z') || ('A' <= c <= 'Z') || ('0' <= c <= '9')
}

/// Whether `c` may stand in an HTTP token: a letter, a digit, or one of
/// ``! # $ % & ' * + - . ^ _ ` | ~``.
pub open spec fn is_token_char(c: char) -> bool {
    is_alphanumeric(c) || c == '!' || c == '#' || c == '$' || c == '%' || c == '&' || c == '\''
        || c == '*' || c == '+' || c == '-' || c == '.' || c == '^' || c == '_' || c == '`' || c
        == '|' || c == '~'
}

/// Whether the HTTP library takes `c` in a header name: a token character or
/// the double quote.
pub open spec fn is_accepted_name_char(c: char) -> bool {
    is_token_char(c) || c == '"'
}

/// `c` with an ASCII capital letter turned into its small letter.
pub open spec fn lower_char(c: char) -> char {
    if 'A' <= c <= 'Z' {
        ((c as u8 + 32) as u8) as char
    } else {
        c
    }
}

/// `s` with its ASCII capital letters turned into small letters.
pub open spec fn lower_case(s: Seq<char>) -> Seq<char> {
    Seq::new(s.len(), |i: int| lower_char(s[i]))
}

/// Whether the HTTP library takes `s` as a header name: between one and
/// [`MAX_NAME_LEN`] characters, each of them one that it takes.
pub open spec fn is_accepted_name(s: Seq<char>) -> bool {
    &&& 1 <= s.len() <= MAX_NAME_LEN
    &&& forall|i: int| 0 <= i < s.len() ==> is_accepted_name_char(#[trigger] s[i])
}

/// Whether `s` is a header name that this library sends: an HTTP token of at
/// most [`MAX_NAME_LEN`] characters.
pub open spec fn is_header_name(s: Seq<char>) -> bool {
    &&& 1 <= s.len() <= MAX_NAME_LEN
    &&& forall|i: int| 0 <= i < s.len() ==> is_token_char(#[trigger] s[i])
}

/// Whether `c` may stand in a header value: a tab, or any character from the
/// space on but the delete character.
pub open spec fn is_value_char(c: char) -> bool {
    c == '\t' || (' ' <= c && c != '\x7f')
}

/// Whether `s` is a header value that can be sent.
pub open spec fn is_header_value(s: Seq<char>) -> bool {
    forall|i: int| 0 <= i < s.len() ==> is_value_char(#[trigger] s[i])
}

/// Whether the HTTP library reads `url` as a URI.
pub uninterp spec fn uri_accepts(url: Seq<char>) -> bool;

/// `isahc::http::HeaderName::from_bytes`, on the bytes of `name`, followed
/// by `HeaderName::as_str`. The HTTP library takes a name of one to
/// [`MAX_NAME_LEN`] bytes, each of which its table of name characters maps to
/// something other than zero: the token characters and the double quote. The
/// name that it keeps is the table's image of the bytes, which has small
/// letters in place of capital ones.
#[verifier::external_body]
fn normalized_name(name: &str) -> (kept: Option<String>)
    ensures
        kept is Some <==> is_accepted_name(name@),
        kept matches Some(text) ==> text@ == lower_case(name@),
{
    match isahc::http::HeaderName::from_bytes(name.as_bytes()) {
        Ok(header) => Some(header.as_str().to_owned()),
        Err(_) => None,
    }
}

/// `isahc::http::HeaderValue::from_str`. It takes a string of which every
/// byte is a tab, or at least 32 and not 127; the bytes of a character beyond
/// ASCII are all above 127.
#[verifier::external_body]
fn value_is_accepted(value: &str) -> (ok: bool)
    ensures
        ok == is_header_value(value@),
{
    isahc::http::HeaderValue::from_str(value).is_ok()
}

/// `isahc::http::Uri::try_from`, on a string slice: whether the HTTP library
/// reads `url` as a URI, which is a function of `url` alone.
#[verifier::external_body]
fn uri_is_accepted(url: &str) -> (ok: bool)
    ensures
        ok == uri_accepts(url@),
{
    isahc::http::Uri::try_from(url).is_ok()
}

/// Whether `text` holds a double quote.
fn has_double_quote(text: &str) -> (found: bool)
    ensures
        found <==> exists|i: int| 0 <= i < text@.len() && text@[i] == '"',
{
    for c in it: text.chars()
        invariant
            it.seq() == text@,
            forall|j: int| 0 <= j < it.index() ==> text@[j] != '"',
    {
        if c == '"' {
            assert(text@[it.index() as int] == '"');
            return true;
        }
    }
    false
}

/// The form in which a header name is sent: in small letters. A name that is
/// no HTTP token, or longer than [`MAX_NAME_LEN`], is refused.
pub fn canonical_name(name: &str) -> (canonical: Result<String, StorageError>)
    ensures
        canonical is Ok <==> is_header_name(name@),
        canonical matches Ok(text) ==> text@ == lower_case(name@),
        canonical matches Err(e) ==> e == StorageError::InvalidHeaderName,
{
    match normalized_name(name) {
        None => {
            proof {
                if is_header_name(name@) {
                    assert forall|i: int| 0 <= i < name@.len() implies is_accepted_name_char(
                        #[trigger] name@[i],
                    ) by {
                        assert(is_token_char(name@[i]));
                    }
                }
            }
            Err(StorageError::InvalidHeaderName)
        },
        Some(text) => {
            if has_double_quote(text.as_str()) {
                proof {
                    let i = choose|i: int| 0 <= i < text@.len() && text@[i] == '"';
                    assert(lower_char(name@[i]) == '"');
                    assert(name@[i] == '"');
                    assert(!is_token_char(name@[i]));
                }
                Err(StorageError::InvalidHeaderName)
            } else {
                proof {
                    assert forall|i: int| 0 <= i < name@.len() implies is_token_char(
                        #[trigger] name@[i],
                    ) by {
                        assert(is_accepted_name_char(name@[i]));
                        assert(text@[i] == lower_char(name@[i]));
                        assert(text@[i] != '"');
                    }
                }
                Ok(text)
            }
        },
    }
}

/// Checks that `value` can be sent as a header value.
pub fn check_value(value: &str) -> (checked: Result<(), StorageError>)
    ensures
        checked is Ok <==> is_header_value(value@),
        checked matches Err(e) ==> e == StorageError::InvalidHeaderValue,
{
    if value_is_accepted(value) {
        Ok(())
    } else {
        Err(StorageError::InvalidHeaderValue)
    }
}

/// Checks that `url` can be the address of a request.
pub fn check_url(url: &str) -> (checked: Result<(), StorageError>)
    ensures
        checked is Ok <==> uri_accepts(url@),
        checked matches Err(e) ==> e == StorageError::InvalidUrl,
{
    if uri_is_accepted(url) {
        Ok(())
    } else {
        Err(StorageError::InvalidUrl)
    }
}

} // verus!
