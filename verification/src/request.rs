//! Requests: what the client asks the transport to send.

use crate::error::StorageError;
use crate::headers::{
    lemma_lookup_with_fields, lookup, with_field, with_fields, without, Fields, Headers,
};
use crate::syntax::{
    canonical_name, check_url, check_value, is_header_name, is_header_value, is_token_char,
    lower_case, uri_accepts,
};
use vstd::prelude::*;

verus! {

/// The verb of a request.
#[derive(Clone, Copy, Debug, PartialEq, Eq, Structural)]
pub enum Method {
    /// Asks for the head of a reply only: whether a value is there, and what
    /// is known about it.
    Head,
    /// Reads.
    Get,
    /// Writes; the body of the request is the value.
    Put,
    /// Removes.
    Delete,
}

/// The body of a request.
#[derive(Debug, PartialEq, Eq)]
pub enum Body {
    /// No body.
    Empty,
    /// A text, sent as its UTF-8 bytes.
    Text(String),
    /// Bytes, sent as they are.
    Bytes(Vec<u8>),
}

/// A [`Body`] as a mathematical value.
pub enum BodyView {
    Empty,
    Text(Seq<char>),
    Bytes(Seq<u8>),
}

impl View for Body {
    type V = BodyView;

    open spec fn view(&self) -> BodyView {
        match self {
            Body::Empty => BodyView::Empty,
            Body::Text(text) => BodyView::Text(text@),
            Body::Bytes(bytes) => BodyView::Bytes(bytes@),
        }
    }
}

impl Clone for Body {
    fn clone(&self) -> (copy: Body)
        ensures
            copy@ == self@,
    {
        match self {
            Body::Empty => Body::Empty,
            Body::Text(text) => Body::Text(text.clone()),
            Body::Bytes(bytes) => Body::Bytes(bytes.clone()),
        }
    }
}

/// A request: what is to be sent, and where. No two of its headers bear the
/// same name. In a request that the client has planned, every header name is
/// an HTTP token in small letters.
#[derive(Debug, PartialEq, Eq)]
pub struct Request {
    pub method: Method,
    pub url: String,
    pub headers: Headers,
    pub body: Body,
}

/// A [`Request`] as a mathematical value.
pub struct RequestView {
    pub method: Method,
    pub url: Seq<char>,
    pub headers: Fields,
    pub body: BodyView,
}

impl View for Request {
    type V = RequestView;

    open spec fn view(&self) -> RequestView {
        RequestView {
            method: self.method,
            url: self.url@,
            headers: self.headers@,
            body: self.body@,
        }
    }
}

/// What stands in the way of sending `field`, its name examined before its
/// value; nothing where it can be sent.
pub open spec fn fault_of(field: (Seq<char>, Seq<char>)) -> Option<StorageError> {
    if !is_header_name(field.0) {
        Some(StorageError::InvalidHeaderName)
    } else if !is_header_value(field.1) {
        Some(StorageError::InvalidHeaderValue)
    } else {
        None
    }
}

/// The fault of the first field of `fields` that cannot be sent; nothing where
/// all can.
pub open spec fn first_fault(fields: Fields) -> Option<StorageError>
    decreases fields.len(),
{
    if fields.len() == 0 {
        None
    } else {
        match first_fault(fields.drop_last()) {
            Some(fault) => Some(fault),
            None => fault_of(fields.last()),
        }
    }
}

/// `fields` with each name in the form in which it is sent, in small letters.
pub open spec fn canonical(fields: Fields) -> Fields {
    Seq::new(fields.len(), |i: int| (lower_case(fields[i].0), fields[i].1))
}

/// The headers of a request that had the headers `preset` after `fields` are
/// set on it one by one. Names are sent in small letters, so of two fields
/// whose names differ in case only, the later one is sent.
pub open spec fn sent_headers(preset: Fields, fields: Fields) -> Fields {
    with_fields(preset, canonical(fields))
}

/// The request of the given parts, or the reason for which there is none: the
/// address is examined first, then the fields in their order.
pub open spec fn planned(
    method: Method,
    url: Seq<char>,
    preset: Fields,
    fields: Fields,
    body: BodyView,
) -> Result<RequestView, StorageError> {
    if !uri_accepts(url) {
        Err(StorageError::InvalidUrl)
    } else {
        match first_fault(fields) {
            Some(fault) => Err(fault),
            None => Ok(
                RequestView { method, url, headers: sent_headers(preset, fields), body },
            ),
        }
    }
}

/// What an attempt to build a request came to, as a mathematical value.
pub open spec fn outcome(built: Result<Request, StorageError>) -> Result<
    RequestView,
    StorageError,
> {
    match built {
        Ok(request) => Ok(request@),
        Err(fault) => Err(fault),
    }
}

/// Every field can be sent exactly when there is no first fault.
pub proof fn lemma_first_fault_none(fields: Fields)
    ensures
        first_fault(fields) is None <==> forall|i: int|
            0 <= i < fields.len() ==> fault_of(#[trigger] fields[i]) is None,
    decreases fields.len(),
{
    if fields.len() > 0 {
        let rest = fields.drop_last();
        lemma_first_fault_none(rest);
        if first_fault(rest) is None {
            if fault_of(fields.last()) is None {
                assert forall|i: int| 0 <= i < fields.len() implies fault_of(
                    #[trigger] fields[i],
                ) is None by {
                    if i < rest.len() {
                        assert(rest[i] == fields[i]);
                    }
                }
            }
        } else {
            let i = choose|i: int| 0 <= i < rest.len() && !(fault_of(#[trigger] rest[i]) is None);
            assert(fields[i] == rest[i]);
        }
    }
}

/// The first fault of a run of fields is that of any of its prefixes that has
/// one.
proof fn lemma_first_fault_prefix(fields: Fields, k: int)
    requires
        0 <= k <= fields.len(),
        first_fault(fields.subrange(0, k)) is Some,
    ensures
        first_fault(fields) == first_fault(fields.subrange(0, k)),
    decreases fields.len() - k,
{
    if k == fields.len() {
        assert(fields.subrange(0, k) =~= fields);
    } else {
        assert(fields.drop_last().subrange(0, k) =~= fields.subrange(0, k));
        lemma_first_fault_prefix(fields.drop_last(), k);
    }
}

/// A request can be planned exactly when its address is a URI and every field
/// has an HTTP token for its name and a value that can be sent.
pub proof fn lemma_planned_ok(
    method: Method,
    url: Seq<char>,
    preset: Fields,
    fields: Fields,
    body: BodyView,
)
    ensures
        planned(method, url, preset, fields, body) is Ok <==> (uri_accepts(url) && forall|i: int|
            0 <= i < fields.len() ==> is_header_name((#[trigger] fields[i]).0) && is_header_value(
                fields[i].1,
            )),
{
    lemma_first_fault_none(fields);
    if first_fault(fields) is None {
        assert forall|i: int| 0 <= i < fields.len() implies is_header_name(
            (#[trigger] fields[i]).0,
        ) && is_header_value(fields[i].1) by {
            assert(fault_of(fields[i]) is None);
        }
    } else {
        let i = choose|i: int| 0 <= i < fields.len() && !(fault_of(#[trigger] fields[i]) is None);
        assert(!(is_header_name(fields[i].0) && is_header_value(fields[i].1)));
    }
}

/// Taking out the fields of one name leaves what the sent names give to any
/// sent name but that of the name taken out.
proof fn lemma_lookup_canonical_without(fields: Fields, name: Seq<char>, sent: Seq<char>)
    requires
        lower_case(name) != sent,
    ensures
        lookup(canonical(without(fields, name)), sent) == lookup(canonical(fields), sent),
    decreases fields.len(),
{
    if fields.len() > 0 {
        let rest = fields.drop_last();
        lemma_lookup_canonical_without(rest, name, sent);
        assert(canonical(fields).drop_last() =~= canonical(rest));
        if fields.last().0 != name {
            let kept = without(rest, name).push(fields.last());
            assert(canonical(kept).drop_last() =~= canonical(without(rest, name)));
        }
    }
}

/// Among sent names, setting a field gives its value to the field's name in
/// small letters and leaves every other name as it was.
pub proof fn lemma_lookup_canonical_with_field(
    fields: Fields,
    name: Seq<char>,
    value: Seq<char>,
    sent: Seq<char>,
)
    ensures
        lookup(canonical(with_field(fields, name, value)), sent) == if lower_case(name) == sent {
            Some(value)
        } else {
            lookup(canonical(fields), sent)
        },
{
    let after = with_field(fields, name, value);
    assert(canonical(after).drop_last() =~= canonical(without(fields, name)));
    if lower_case(name) != sent {
        lemma_lookup_canonical_without(fields, name, sent);
    }
}

/// Among sent names, after the fields of `more` are set a name holds what
/// `more` gives it, and what it held before where `more` does not name it.
pub proof fn lemma_lookup_canonical_with_fields(fields: Fields, more: Fields, sent: Seq<char>)
    ensures
        lookup(canonical(with_fields(fields, more)), sent) == if lookup(canonical(more), sent)
            is Some {
            lookup(canonical(more), sent)
        } else {
            lookup(canonical(fields), sent)
        },
    decreases more.len(),
{
    if more.len() > 0 {
        let rest = more.drop_last();
        lemma_lookup_canonical_with_fields(fields, rest, sent);
        lemma_lookup_canonical_with_field(
            with_fields(fields, rest),
            more.last().0,
            more.last().1,
            sent,
        );
        assert(canonical(more).drop_last() =~= canonical(rest));
    }
}

/// The header that is sent under a name is that of the last field whose name
/// is that name but for the case of its letters; where there is no such
/// field, it is the header that the request had before.
pub proof fn lemma_sent_header(preset: Fields, fields: Fields, sent: Seq<char>)
    ensures
        lookup(sent_headers(preset, fields), sent) == if lookup(canonical(fields), sent) is Some {
            lookup(canonical(fields), sent)
        } else {
            lookup(preset, sent)
        },
{
    lemma_lookup_with_fields(preset, canonical(fields), sent);
}

/// Whether every field of `fields` can be sent as it stands: its name is an
/// HTTP token without capital letters, and its value a header value.
pub open spec fn sendable(fields: Fields) -> bool {
    forall|i: int|
        0 <= i < fields.len() ==> {
            &&& is_header_name((#[trigger] fields[i]).0)
            &&& lower_case(fields[i].0) == fields[i].0
            &&& is_header_value(fields[i].1)
        }
}

/// Taking a name out of fields that can be sent leaves fields that can be sent.
proof fn lemma_without_sendable(fields: Fields, name: Seq<char>)
    requires
        sendable(fields),
    ensures
        sendable(without(fields, name)),
    decreases fields.len(),
{
    if fields.len() > 0 {
        let rest = fields.drop_last();
        assert(sendable(rest)) by {
            assert forall|i: int| 0 <= i < rest.len() implies {
                &&& is_header_name((#[trigger] rest[i]).0)
                &&& lower_case(rest[i].0) == rest[i].0
                &&& is_header_value(rest[i].1)
            } by {
                assert(rest[i] == fields[i]);
            }
        }
        lemma_without_sendable(rest, name);
        if fields.last().0 != name {
            let kept = without(rest, name);
            let out = kept.push(fields.last());
            assert forall|i: int| 0 <= i < out.len() implies {
                &&& is_header_name((#[trigger] out[i]).0)
                &&& lower_case(out[i].0) == out[i].0
                &&& is_header_value(out[i].1)
            } by {
                if i < kept.len() {
                    assert(out[i] == kept[i]);
                } else {
                    assert(out[i] == fields[fields.len() - 1]);
                }
            }
        }
    }
}

/// Setting fields that can be sent on fields that can be sent gives fields
/// that can be sent.
proof fn lemma_with_fields_sendable(fields: Fields, more: Fields)
    requires
        sendable(fields),
        sendable(more),
    ensures
        sendable(with_fields(fields, more)),
    decreases more.len(),
{
    if more.len() > 0 {
        let rest = more.drop_last();
        assert(sendable(rest)) by {
            assert forall|i: int| 0 <= i < rest.len() implies {
                &&& is_header_name((#[trigger] rest[i]).0)
                &&& lower_case(rest[i].0) == rest[i].0
                &&& is_header_value(rest[i].1)
            } by {
                assert(rest[i] == more[i]);
            }
        }
        lemma_with_fields_sendable(fields, rest);
        let before = with_fields(fields, rest);
        lemma_without_sendable(before, more.last().0);
        let kept = without(before, more.last().0);
        let out = with_field(before, more.last().0, more.last().1);
        assert forall|i: int| 0 <= i < out.len() implies {
            &&& is_header_name((#[trigger] out[i]).0)
            &&& lower_case(out[i].0) == out[i].0
            &&& is_header_value(out[i].1)
        } by {
            if i < kept.len() {
                assert(out[i] == kept[i]);
            } else {
                assert(out[i] == more[more.len() - 1]);
            }
        }
    }
}

/// A header name in small letters is a header name, and stays as it is when
/// it is put in small letters again.
pub proof fn lemma_lower_case_name(name: Seq<char>)
    requires
        is_header_name(name),
    ensures
        is_header_name(lower_case(name)),
        lower_case(lower_case(name)) == lower_case(name),
{
    let low = lower_case(name);
    assert forall|i: int| 0 <= i < low.len() implies is_token_char(#[trigger] low[i]) by {
        assert(is_token_char(name[i]));
    }
    assert(lower_case(low) =~= low);
}

/// What is sent can be sent: where the headers that a request had can be
/// sent and no field is at fault, every header of the request can be sent
/// after the fields are set on it.
pub proof fn lemma_sent_headers_sendable(preset: Fields, fields: Fields)
    requires
        sendable(preset),
        first_fault(fields) is None,
    ensures
        sendable(sent_headers(preset, fields)),
{
    lemma_first_fault_none(fields);
    let sent = canonical(fields);
    assert forall|i: int| 0 <= i < sent.len() implies {
        &&& is_header_name((#[trigger] sent[i]).0)
        &&& lower_case(sent[i].0) == sent[i].0
        &&& is_header_value(sent[i].1)
    } by {
        assert(fault_of(fields[i]) is None);
        lemma_lower_case_name(fields[i].0);
    }
    lemma_with_fields_sendable(preset, sent);
}

impl Request {
    /// A request without headers for the address `url`, of which `checked` is
    /// what [`check_url`] has said.
    pub fn from_checked(
        method: Method,
        url: String,
        checked: Result<(), StorageError>,
        body: Body,
    ) -> (built: Result<Request, StorageError>)
        ensures
            outcome(built) == match checked {
                Ok(_) => Ok::<RequestView, StorageError>(
                    RequestView { method, url: url@, headers: Seq::empty(), body: body@ },
                ),
                Err(fault) => Err(fault),
            },
    {
        match checked {
            Ok(_) => Ok(Request { method, url, headers: Headers::new(), body }),
            Err(fault) => Err(fault),
        }
    }

    /// A request without headers. The address must be one that the HTTP
    /// library reads as a URI.
    pub fn new(method: Method, url: String, body: Body) -> (built: Result<Request, StorageError>)
        ensures
            outcome(built) == if uri_accepts(url@) {
                Ok::<RequestView, StorageError>(
                    RequestView { method, url: url@, headers: Seq::empty(), body: body@ },
                )
            } else {
                Err(StorageError::InvalidUrl)
            },
    {
        let checked = check_url(url.as_str());
        Request::from_checked(method, url, checked, body)
    }

    /// Sets `fields` on the request one by one, each name in small letters.
    /// Where a field cannot be sent, the request is left as it was.
    pub fn set_headers(&mut self, fields: &Headers) -> (done: Result<(), StorageError>)
        ensures
            match first_fault(fields@) {
                Some(fault) => done == Err::<(), StorageError>(fault) && *final(self) == *old(
                    self,
                ),
                None => done is Ok && final(self)@ == (RequestView {
                    headers: sent_headers(old(self)@.headers, fields@),
                    ..old(self)@
                }),
            },
    {
        let mut staged = self.headers.clone();
        let n = fields.len();
        let mut i: usize = 0;
        while i < n
            invariant
                i <= n,
                n == fields@.len(),
                *self == *old(self),
                first_fault(fields@.subrange(0, i as int)) is None,
                staged@ == sent_headers(self.headers@, fields@.subrange(0, i as int)),
            decreases n - i,
        {
            proof {
                assert(fields@.subrange(0, i + 1).drop_last() =~= fields@.subrange(0, i as int));
                assert(canonical(fields@.subrange(0, i + 1)).drop_last() =~= canonical(
                    fields@.subrange(0, i as int),
                ));
            }
            match fields.entry(i) {
                Some((name, value)) => {
                    let sent_name = match canonical_name(name.as_str()) {
                        Ok(text) => text,
                        Err(fault) => {
                            proof {
                                lemma_first_fault_prefix(fields@, i + 1);
                            }
                            return Err(fault);
                        },
                    };
                    match check_value(value.as_str()) {
                        Ok(()) => {},
                        Err(fault) => {
                            proof {
                                lemma_first_fault_prefix(fields@, i + 1);
                            }
                            return Err(fault);
                        },
                    }
                    staged.insert(sent_name, value.clone());
                },
                None => {},
            }
            i += 1;
        }
        proof {
            assert(fields@.subrange(0, n as int) =~= fields@);
        }
        self.headers = staged;
        Ok(())
    }
}

} // verus!
