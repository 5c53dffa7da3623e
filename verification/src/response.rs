//! Replies: what the head and the body of a reply mean for each operation.

use crate::decimal::{decimal, lemma_decimal_round_trip, parse_decimal, parsed_u64};
use crate::error::StorageError;
use crate::json::{json_string_array, parse_string_array, texts_of};
use crate::time::{parse_rfc2822, rfc2822_instant, Timestamp};
use vstd::prelude::*;

verus! {

/// Whether a status code reports success: 200 to 299.
pub open spec fn spec_is_success(status: u16) -> bool {
    200 <= status < 300
}

/// Tells whether a status code reports success.
#[verifier::when_used_as_spec(spec_is_success)]
pub fn is_success(status: u16) -> (ok: bool)
    ensures
        ok == spec_is_success(status),
{
    200 <= status && status < 300
}

/// What a reply with the status `status` holds, `body` being what its body
/// was read as: a reply that does not report success holds nothing.
pub open spec fn held<T>(status: u16, body: Option<T>) -> Option<T> {
    if is_success(status) {
        body
    } else {
        None
    }
}

/// The header fields of a reply, in the order in which they came: each a name
/// and, where the value is text, that text.
pub type ReplyFields = Seq<(Seq<char>, Option<Seq<char>>)>;

/// The header fields that a vector of names and values holds.
pub open spec fn reply_fields(pairs: Seq<(String, Option<String>)>) -> ReplyFields {
    Seq::new(
        pairs.len(),
        |i: int|
            (
                pairs[i].0@,
                match pairs[i].1 {
                    Some(text) => Some(text@),
                    None => None,
                },
            ),
    )
}

/// The text of the first field of `fields` that is named `name`; nothing
/// where there is no such field or its value is no text.
pub open spec fn first_value(fields: ReplyFields, name: Seq<char>) -> Option<Seq<char>>
    decreases fields.len(),
{
    if fields.len() == 0 {
        None
    } else if fields[0].0 == name {
        fields[0].1
    } else {
        first_value(fields.drop_first(), name)
    }
}

/// What is known about a stored value.
#[derive(Clone, Copy, Debug, PartialEq, Eq, Structural)]
pub struct Meta {
    /// When the value was last modified.
    pub mtime: Option<Timestamp>,
    /// For how many seconds the value is to live.
    pub ttl: Option<u64>,
}

/// The instant that `text` denotes as a date and time of RFC 2822.
pub open spec fn instant_of(text: Seq<char>) -> Option<Timestamp> {
    match rfc2822_instant(text) {
        Some((secs, nanos)) => Some(Timestamp { secs, nanos }),
        None => None,
    }
}

/// What the header fields `fields` tell about a stored value: the time of
/// `last-modified` where that is a date of RFC 2822, and the seconds of
/// `x-ttl` where that is a decimal number.
pub open spec fn meta_of(fields: ReplyFields) -> Meta {
    Meta {
        mtime: match first_value(fields, "last-modified"@) {
            Some(text) => instant_of(text),
            None => None,
        },
        ttl: match first_value(fields, "x-ttl"@) {
            Some(text) => parsed_u64(text),
            None => None,
        },
    }
}

/// The head of a reply, as the transport hands it over.
#[derive(Debug, PartialEq, Eq)]
pub struct Response {
    /// The status code.
    pub status: u16,
    /// The header fields in the order in which they came. Names are in small
    /// letters; a value that is not made of visible ASCII characters, spaces
    /// and tabs alone is no text and stands as `None`.
    pub headers: Vec<(String, Option<String>)>,
}

/// A [`Response`] as a mathematical value.
pub struct ResponseView {
    pub status: u16,
    pub headers: ReplyFields,
}

impl View for Response {
    type V = ResponseView;

    open spec fn view(&self) -> ResponseView {
        ResponseView { status: self.status, headers: reply_fields(self.headers@) }
    }
}

impl Response {
    /// The text of the first header field named `name`.
    pub fn header_text(&self, name: &str) -> (text: Option<&String>)
        ensures
            match text {
                Some(found) => first_value(self@.headers, name@) == Some(found@),
                None => first_value(self@.headers, name@) is None,
            },
    {
        let wanted = name.to_owned();
        let ghost fields = self@.headers;
        let mut i: usize = 0;
        assert(fields.subrange(0, fields.len() as int) =~= fields);
        while i < self.headers.len()
            invariant
                i <= self.headers.len(),
                wanted@ == name@,
                fields == reply_fields(self.headers@),
                first_value(fields, name@) == first_value(
                    fields.subrange(i as int, fields.len() as int),
                    name@,
                ),
            decreases self.headers.len() - i,
        {
            proof {
                assert(fields.subrange(i as int, fields.len() as int).drop_first()
                    =~= fields.subrange(i + 1, fields.len() as int));
            }
            if self.headers[i].0 == wanted {
                return match &self.headers[i].1 {
                    Some(found) => Some(found),
                    None => None,
                };
            }
            i += 1;
        }
        None
    }

    /// Whether the body of this reply is to be read: a read operation reads
    /// the body of a reply that reports success, and of no other.
    pub fn reads_body(&self) -> (wanted: bool)
        ensures
            wanted == is_success(self.status),
    {
        is_success(self.status)
    }

    /// Whether the value that was asked about is stored: it is where the reply
    /// reports success.
    pub fn has_item(&self) -> (stored: bool)
        ensures
            stored == is_success(self.status),
    {
        is_success(self.status)
    }

    /// The text that was read. `body` is the body of the reply as text, where
    /// it was read. A reply that does not report success holds no value.
    pub fn get_item(&self, body: Option<String>) -> (text: Option<String>)
        ensures
            text == held(self.status, body),
    {
        if is_success(self.status) {
            body
        } else {
            None
        }
    }

    /// The value that was read as JSON. `parsed` is what reading the body of
    /// the reply as JSON came to, where the body was read. A reply that does
    /// not report success holds no value; a body that is not the JSON that was
    /// asked for is an error.
    pub fn get_item_json<T>(&self, parsed: Option<Result<T, serde_json::Error>>) -> (value: Result<
        Option<T>,
        StorageError,
    >)
        ensures
            value == match held(self.status, parsed) {
                Some(Ok(found)) => Ok::<Option<T>, StorageError>(Some(found)),
                Some(Err(_)) => Err(StorageError::Decode),
                None => Ok(None),
            },
    {
        if is_success(self.status) {
            match parsed {
                Some(Ok(found)) => Ok(Some(found)),
                Some(Err(_)) => Err(StorageError::Decode),
                None => Ok(None),
            }
        } else {
            Ok(None)
        }
    }

    /// The bytes that were read. `body` is the body of the reply, where it was
    /// read. A reply that does not report success holds no value.
    pub fn get_item_raw(&self, body: Option<Vec<u8>>) -> (bytes: Option<Vec<u8>>)
        ensures
            bytes == held(self.status, body),
    {
        if is_success(self.status) {
            body
        } else {
            None
        }
    }

    /// What the reply tells about the value that was asked about, `modified`
    /// being the instant that its header `last-modified` denotes, where there
    /// is such a header and it denotes one.
    pub fn get_meta_with(&self, modified: Option<Timestamp>) -> (meta: Option<Meta>)
        ensures
            meta == if is_success(self.status) {
                Some(
                    Meta {
                        mtime: modified,
                        ttl: match first_value(self@.headers, "x-ttl"@) {
                            Some(text) => parsed_u64(text),
                            None => None,
                        },
                    },
                )
            } else {
                None
            },
    {
        if !is_success(self.status) {
            return None;
        }
        let ttl = match self.header_text("x-ttl") {
            Some(text) => parse_decimal(text.as_str()),
            None => None,
        };
        Some(Meta { mtime: modified, ttl })
    }

    /// What the reply tells about the value that was asked about. A reply
    /// that does not report success tells nothing. Of one that does, each of
    /// the two fields is there where the header is there and can be read.
    pub fn get_meta(&self) -> (meta: Option<Meta>)
        ensures
            meta == if is_success(self.status) {
                Some(meta_of(self@.headers))
            } else {
                None
            },
    {
        if !is_success(self.status) {
            return None;
        }
        let modified = match self.header_text("last-modified") {
            Some(text) => parse_rfc2822(text.as_str()),
            None => None,
        };
        self.get_meta_with(modified)
    }

    /// The keys that were listed. `body` is the body of the reply as text,
    /// where it was read; the keys are the strings of the JSON array that it
    /// holds, in their order. A reply that does not report success lists
    /// nothing; a body that is no JSON array of strings is an error.
    pub fn get_keys(&self, body: Option<&str>) -> (keys: Result<Option<Vec<String>>, StorageError>)
        ensures
            match held(self.status, body) {
                Some(text) => match json_string_array(text@) {
                    Some(listed) => keys matches Ok(Some(list)) && texts_of(list@) == listed,
                    None => keys == Err::<Option<Vec<String>>, StorageError>(StorageError::Decode),
                },
                None => keys == Ok::<Option<Vec<String>>, StorageError>(None),
            },
    {
        if !is_success(self.status) {
            return Ok(None);
        }
        match body {
            Some(text) => self.get_item_json(Some(parse_string_array(text))),
            None => Ok(None),
        }
    }
}

/// A time to live that a reply bears as the client writes one is read as
/// the number that was written.
pub proof fn lemma_ttl_round_trip(fields: ReplyFields, seconds: u64)
    requires
        first_value(fields, "x-ttl"@) == Some(decimal(seconds as nat)),
    ensures
        meta_of(fields).ttl == Some(seconds),
{
    lemma_decimal_round_trip(seconds);
}

} // verus!
