//! JSON texts, as far as the client reads them itself.

use vstd::prelude::*;

verus! {

/// The error type of the JSON library.
#[verifier::external_type_specification]
#[verifier::external_body]
pub struct ExJsonError(serde_json::Error);

/// The strings of `list`, each as its characters.
pub open spec fn texts_of(list: Seq<String>) -> Seq<Seq<char>> {
    Seq::new(list.len(), |i: int| list[i]@)
}

/// The strings, in their order, that `text` holds as a JSON array of strings;
/// nothing where `text` is no such array.
pub uninterp spec fn json_string_array(text: Seq<char>) -> Option<Seq<Seq<char>>>;

/// `serde_json::from_str` at the type `Vec<String>`. Whether it succeeds, and
/// the strings that it gives, are a function of `text` alone.
#[verifier::external_body]
pub(crate) fn parse_string_array(text: &str) -> (parsed: Result<Vec<String>, serde_json::Error>)
    ensures
        parsed is Ok <==> json_string_array(text@) is Some,
        parsed matches Ok(list) ==> json_string_array(text@) == Some(texts_of(list@)),
{
    serde_json::from_str::<Vec<String>>(text)
}

} // verus!
