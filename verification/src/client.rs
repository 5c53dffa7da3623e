//! The client: for each operation on the store, the request that asks for it.

use crate::decimal::{decimal, to_decimal};
use crate::error::StorageError;
use crate::headers::{
    as_map, lemma_lookup_with_fields, lemma_with_field_as_map, lemma_with_fields_as_map, lookup,
    with_field, with_fields, Fields, Headers,
};
use crate::request::{
    canonical, first_fault, lemma_lookup_canonical_with_field,
    lemma_lookup_canonical_with_fields, lemma_sent_header, lemma_sent_headers_sendable, outcome,
    planned, sendable, sent_headers, Body, BodyView, Method, Request, RequestView,
};
use crate::syntax::{lower_case, uri_accepts};
use vstd::prelude::*;
use vstd::slice::slice_to_vec;
use vstd::string::StringExecFns;

verus! {

/// What may be asked for with a single operation, beyond the client's own
/// configuration.
#[derive(Debug)]
pub struct TransactionOptions {
    /// Headers for this operation. Each one replaces the header of that name
    /// that the client or `ttl` would send.
    pub headers: Option<Headers>,
    /// The time in seconds for which a value that is written is to live.
    pub ttl: Option<u64>,
}

/// A client of one store, known by the URL under which its values lie.
pub struct UnstorageClient {
    base_url: String,
    headers: Headers,
}

/// An [`UnstorageClient`] as a mathematical value.
pub struct ClientView {
    /// The URL under which the values lie.
    pub base_url: Seq<char>,
    /// The headers that every request bears unless an operation changes them.
    pub headers: Fields,
}

impl View for UnstorageClient {
    type V = ClientView;

    closed spec fn view(&self) -> ClientView {
        ClientView { base_url: self.base_url@, headers: self.headers@ }
    }
}

/// The time to live that `topts` asks for.
pub open spec fn ttl_of(topts: Option<&TransactionOptions>) -> Option<u64> {
    match topts {
        Some(options) => options.ttl,
        None => None,
    }
}

/// The headers that `topts` asks for.
pub open spec fn headers_of(topts: Option<&TransactionOptions>) -> Option<Fields> {
    match topts {
        Some(options) => match options.headers {
            Some(headers) => Some(headers@),
            None => None,
        },
        None => None,
    }
}

/// The headers of one operation: the client's own, then `x-ttl` set to the
/// time to live in decimal if one is asked for, then the headers of the
/// operation set one by one.
pub open spec fn effective(defaults: Fields, ttl: Option<u64>, extra: Option<Fields>) -> Fields {
    let timed = match ttl {
        Some(seconds) => with_field(defaults, "x-ttl"@, decimal(seconds as nat)),
        None => defaults,
    };
    match extra {
        Some(more) => with_fields(timed, more),
        None => timed,
    }
}

/// The address of the value stored under `key`.
pub open spec fn item_address(base_url: Seq<char>, key: Seq<char>) -> Seq<char> {
    base_url + seq!['/'] + key
}

/// The address of all that is stored under the prefix `base`.
pub open spec fn listing_address(base_url: Seq<char>, base: Seq<char>) -> Seq<char> {
    base_url + seq!['/'] + base + seq![':']
}

/// The one header that a request bearing JSON or text has before the headers
/// of the operation are set.
pub open spec fn json_preset() -> Fields {
    seq![("content-type"@, "application/json"@)]
}

/// The one header that a request bearing bytes has before the headers of the
/// operation are set.
pub open spec fn octets_preset() -> Fields {
    seq![("content-type"@, "application/octet-stream"@)]
}

impl UnstorageClient {
    /// A client of the store at `base_url`, which sends `headers` with every
    /// request. The URL is taken as it stands; one that is malformed makes
    /// every operation fail.
    pub fn new(base_url: String, headers: Option<Headers>) -> (client: UnstorageClient)
        ensures
            client@.base_url == base_url@,
            client@.headers == match headers {
                Some(given) => given@,
                None => Seq::<(Seq<char>, Seq<char>)>::empty(),
            },
    {
        let headers = match headers {
            Some(given) => given,
            None => Headers::new(),
        };
        UnstorageClient { base_url, headers }
    }

    /// The URL under which the values lie.
    pub fn base_url(&self) -> (url: &str)
        ensures
            url@ == self@.base_url,
    {
        self.base_url.as_str()
    }

    /// The headers that every request bears unless an operation changes them.
    pub fn headers(&self) -> (headers: &Headers)
        ensures
            headers@ == self@.headers,
    {
        &self.headers
    }

    /// The headers of an operation with the options `topts`, as
    /// [`effective`] defines them.
    pub open spec fn fields(&self, topts: Option<&TransactionOptions>) -> Fields {
        effective(self@.headers, ttl_of(topts), headers_of(topts))
    }

    /// The headers of an operation with the options `topts`: the client's own,
    /// then `x-ttl` if a time to live is asked for, then the headers of the
    /// operation; a header that is set later replaces one of the same name.
    pub fn get_headers(&self, topts: Option<&TransactionOptions>) -> (headers: Headers)
        ensures
            headers@ == self.fields(topts),
    {
        let mut headers = self.headers.clone();
        if let Some(options) = topts {
            if let Some(seconds) = options.ttl {
                headers.insert("x-ttl".to_owned(), to_decimal(seconds));
            }
            if let Some(extra) = &options.headers {
                headers.extend(extra);
            }
        }
        headers
    }

    /// Sets the headers of an operation with the options `topts` on
    /// `request`. Where one of them cannot be sent, the request is left as it
    /// was and the first such header decides the error.
    pub fn add_headers_to_request(
        &self,
        request: &mut Request,
        topts: Option<&TransactionOptions>,
    ) -> (done: Result<(), StorageError>)
        ensures
            match first_fault(self.fields(topts)) {
                Some(fault) => done == Err::<(), StorageError>(fault) && *final(request) == *old(
                    request,
                ),
                None => done is Ok && final(request)@ == (RequestView {
                    headers: sent_headers(old(request)@.headers, self.fields(topts)),
                    ..old(request)@
                }),
            },
    {
        let headers = self.get_headers(topts);
        request.set_headers(&headers)
    }

    /// The address of the value stored under `key`.
    pub fn item_url(&self, key: &str) -> (url: String)
        ensures
            url@ == item_address(self@.base_url, key@),
    {
        let mut url = self.base_url.clone();
        url.append("/");
        url.append(key);
        proof {
            reveal_strlit("/");
            assert("/"@ =~= seq!['/']);
        }
        url
    }

    /// The address of all that is stored under the prefix `base`.
    pub fn listing_url(&self, base: &str) -> (url: String)
        ensures
            url@ == listing_address(self@.base_url, base@),
    {
        let mut url = self.base_url.clone();
        url.append("/");
        url.append(base);
        url.append(":");
        proof {
            reveal_strlit("/");
            reveal_strlit(":");
            assert("/"@ =~= seq!['/']);
            assert(":"@ =~= seq![':']);
        }
        url
    }

    /// The request that asks whether a value is stored under `key`.
    pub fn has_item(&self, key: &str, topts: Option<&TransactionOptions>) -> (built: Result<
        Request,
        StorageError,
    >)
        ensures
            outcome(built) == planned(
                Method::Head,
                item_address(self@.base_url, key@),
                Seq::empty(),
                self.fields(topts),
                BodyView::Empty,
            ),
    {
        let mut request = Request::new(Method::Head, self.item_url(key), Body::Empty)?;
        self.add_headers_to_request(&mut request, topts)?;
        Ok(request)
    }

    /// The request that reads the value stored under `key` as text.
    pub fn get_item(&self, key: &str, topts: Option<&TransactionOptions>) -> (built: Result<
        Request,
        StorageError,
    >)
        ensures
            outcome(built) == planned(
                Method::Get,
                item_address(self@.base_url, key@),
                Seq::empty(),
                self.fields(topts),
                BodyView::Empty,
            ),
    {
        let mut request = Request::new(Method::Get, self.item_url(key), Body::Empty)?;
        self.add_headers_to_request(&mut request, topts)?;
        Ok(request)
    }

    /// The request that reads the value stored under `key` as JSON. It is the
    /// request of [`UnstorageClient::get_item`]; the replies are read
    /// differently.
    pub fn get_item_json(&self, key: &str, topts: Option<&TransactionOptions>) -> (built: Result<
        Request,
        StorageError,
    >)
        ensures
            outcome(built) == planned(
                Method::Get,
                item_address(self@.base_url, key@),
                Seq::empty(),
                self.fields(topts),
                BodyView::Empty,
            ),
    {
        self.get_item(key, topts)
    }

    /// The request that reads the value stored under `key` as bytes. It asks
    /// for `application/octet-stream`, whatever `accept` header the client or
    /// the options name.
    pub fn get_item_raw(&self, key: &str, topts: Option<&TransactionOptions>) -> (built: Result<
        Request,
        StorageError,
    >)
        ensures
            outcome(built) == planned(
                Method::Get,
                item_address(self@.base_url, key@),
                Seq::empty(),
                with_field(self.fields(topts), "accept"@, "application/octet-stream"@),
                BodyView::Empty,
            ),
    {
        let mut request = Request::new(Method::Get, self.item_url(key), Body::Empty)?;
        let mut headers = self.get_headers(topts);
        headers.insert("accept".to_owned(), "application/octet-stream".to_owned());
        request.set_headers(&headers)?;
        Ok(request)
    }

    /// The request that asks what is known about the value stored under
    /// `key`: when it was last modified, and how long it is to live.
    pub fn get_meta(&self, key: &str, topts: Option<&TransactionOptions>) -> (built: Result<
        Request,
        StorageError,
    >)
        ensures
            outcome(built) == planned(
                Method::Head,
                item_address(self@.base_url, key@),
                Seq::empty(),
                self.fields(topts),
                BodyView::Empty,
            ),
    {
        let mut request = Request::new(Method::Head, self.item_url(key), Body::Empty)?;
        self.add_headers_to_request(&mut request, topts)?;
        Ok(request)
    }

    /// The request that stores the text `value` under `key`. The text is sent
    /// as it is, declared as JSON.
    pub fn set_item(&self, key: &str, value: &str, topts: Option<&TransactionOptions>) -> (built:
        Result<Request, StorageError>)
        ensures
            outcome(built) == planned(
                Method::Put,
                item_address(self@.base_url, key@),
                json_preset(),
                self.fields(topts),
                BodyView::Text(value@),
            ),
    {
        let mut request = Request::new(
            Method::Put,
            self.item_url(key),
            Body::Text(value.to_owned()),
        )?;
        request.headers.insert("content-type".to_owned(), "application/json".to_owned());
        proof {
            assert(request.headers@ =~= json_preset());
        }
        self.add_headers_to_request(&mut request, topts)?;
        Ok(request)
    }

    /// The request that stores the bytes `value` under `key`.
    pub fn set_item_raw(&self, key: &str, value: &[u8], topts: Option<&TransactionOptions>) -> (built:
        Result<Request, StorageError>)
        ensures
            outcome(built) == planned(
                Method::Put,
                item_address(self@.base_url, key@),
                octets_preset(),
                self.fields(topts),
                BodyView::Bytes(value@),
            ),
    {
        let mut request = Request::new(
            Method::Put,
            self.item_url(key),
            Body::Bytes(slice_to_vec(value)),
        )?;
        request.headers.insert("content-type".to_owned(), "application/octet-stream".to_owned());
        proof {
            assert(request.headers@ =~= octets_preset());
        }
        self.add_headers_to_request(&mut request, topts)?;
        Ok(request)
    }

    /// The request that stores under `key` a value that the caller has
    /// written as JSON; `encoded` is what writing it came to. Where it failed,
    /// there is nothing to send.
    pub fn set_item_json(
        &self,
        key: &str,
        encoded: Result<String, serde_json::Error>,
        topts: Option<&TransactionOptions>,
    ) -> (built: Result<Request, StorageError>)
        ensures
            outcome(built) == match encoded {
                Ok(json) => planned(
                    Method::Put,
                    item_address(self@.base_url, key@),
                    json_preset(),
                    self.fields(topts),
                    BodyView::Text(json@),
                ),
                Err(_) => Err(StorageError::Encode),
            },
    {
        match encoded {
            Ok(json) => self.set_item(key, json.as_str(), topts),
            Err(_) => Err(StorageError::Encode),
        }
    }

    /// The request that removes the value stored under `key`.
    pub fn remove_item(&self, key: &str, topts: Option<&TransactionOptions>) -> (built: Result<
        Request,
        StorageError,
    >)
        ensures
            outcome(built) == planned(
                Method::Delete,
                item_address(self@.base_url, key@),
                Seq::empty(),
                self.fields(topts),
                BodyView::Empty,
            ),
    {
        let mut request = Request::new(Method::Delete, self.item_url(key), Body::Empty)?;
        self.add_headers_to_request(&mut request, topts)?;
        Ok(request)
    }

    /// The request that lists the keys stored under the prefix `base`.
    pub fn get_keys(&self, base: &str, topts: Option<&TransactionOptions>) -> (built: Result<
        Request,
        StorageError,
    >)
        ensures
            outcome(built) == planned(
                Method::Get,
                listing_address(self@.base_url, base@),
                Seq::empty(),
                self.fields(topts),
                BodyView::Empty,
            ),
    {
        let mut request = Request::new(Method::Get, self.listing_url(base), Body::Empty)?;
        self.add_headers_to_request(&mut request, topts)?;
        Ok(request)
    }

    /// The request that removes all that is stored under the prefix `base`.
    pub fn clear(&self, base: &str, topts: Option<&TransactionOptions>) -> (built: Result<
        Request,
        StorageError,
    >)
        ensures
            outcome(built) == planned(
                Method::Delete,
                listing_address(self@.base_url, base@),
                Seq::empty(),
                self.fields(topts),
                BodyView::Empty,
            ),
    {
        let mut request = Request::new(Method::Delete, self.listing_url(base), Body::Empty)?;
        self.add_headers_to_request(&mut request, topts)?;
        Ok(request)
    }
}

/// As maps, the headers of an operation are the client's headers, with
/// `x-ttl` inserted where a time to live is asked for, united with the headers
/// of the operation, which win where both name a header.
pub proof fn lemma_effective_as_map(defaults: Fields, ttl: Option<u64>, extra: Option<Fields>)
    ensures
        as_map(effective(defaults, ttl, extra)) == {
            let timed = match ttl {
                Some(seconds) => as_map(defaults).insert("x-ttl"@, decimal(seconds as nat)),
                None => as_map(defaults),
            };
            match extra {
                Some(more) => timed.union_prefer_right(as_map(more)),
                None => timed,
            }
        },
{
    let timed = match ttl {
        Some(seconds) => with_field(defaults, "x-ttl"@, decimal(seconds as nat)),
        None => defaults,
    };
    if let Some(seconds) = ttl {
        lemma_with_field_as_map(defaults, "x-ttl"@, decimal(seconds as nat));
    }
    if let Some(more) = extra {
        lemma_with_fields_as_map(timed, more);
    }
}

/// A header of the operation replaces the header of the same name that the
/// client or the time to live would give.
pub proof fn lemma_operation_header_wins(
    defaults: Fields,
    ttl: Option<u64>,
    extra: Fields,
    name: Seq<char>,
)
    requires
        lookup(extra, name) is Some,
    ensures
        lookup(effective(defaults, ttl, Some(extra)), name) == lookup(extra, name),
{
    let timed = match ttl {
        Some(seconds) => with_field(defaults, "x-ttl"@, decimal(seconds as nat)),
        None => defaults,
    };
    lemma_lookup_with_fields(timed, extra, name);
}

/// What is sent under a name that the headers of the operation set, the case
/// of letters aside, is what those headers give it: neither the client's
/// headers nor the time to live nor a header that the request had before
/// stands against them.
pub proof fn lemma_operation_header_is_sent(
    preset: Fields,
    defaults: Fields,
    ttl: Option<u64>,
    extra: Fields,
    sent: Seq<char>,
)
    requires
        lookup(canonical(extra), sent) is Some,
    ensures
        lookup(sent_headers(preset, effective(defaults, ttl, Some(extra))), sent) == lookup(
            canonical(extra),
            sent,
        ),
{
    let timed = match ttl {
        Some(seconds) => with_field(defaults, "x-ttl"@, decimal(seconds as nat)),
        None => defaults,
    };
    lemma_lookup_canonical_with_fields(timed, extra, sent);
    lemma_sent_header(preset, effective(defaults, ttl, Some(extra)), sent);
}

/// Where no other field of `fields` has the name `name` but for the case of
/// its letters, what is sent under `name` in small letters is what `fields`
/// gives to `name`.
pub proof fn lemma_lookup_canonical_plain(fields: Fields, name: Seq<char>)
    requires
        forall|i: int|
            0 <= i < fields.len() && lower_case((#[trigger] fields[i]).0) == lower_case(name)
                ==> fields[i].0 == name,
    ensures
        lookup(canonical(fields), lower_case(name)) == lookup(fields, name),
    decreases fields.len(),
{
    if fields.len() > 0 {
        let rest = fields.drop_last();
        assert(canonical(fields).drop_last() =~= canonical(rest));
        assert forall|i: int|
            0 <= i < rest.len() && lower_case((#[trigger] rest[i]).0) == lower_case(
                name,
            ) implies rest[i].0 == name by {
            assert(rest[i] == fields[i]);
        }
        lemma_lookup_canonical_plain(rest, name);
        assert(fields[fields.len() - 1] == fields.last());
    }
}

/// Where the client's headers and the headers of the operation both set a
/// name, and the operation sets no other name that differs from it in the
/// case of letters only, the value that is sent is that of the operation.
pub proof fn lemma_header_precedence(
    preset: Fields,
    defaults: Fields,
    ttl: Option<u64>,
    extra: Fields,
    name: Seq<char>,
)
    requires
        lookup(defaults, name) is Some,
        lookup(extra, name) is Some,
        forall|i: int|
            0 <= i < extra.len() && lower_case((#[trigger] extra[i]).0) == lower_case(name)
                ==> extra[i].0 == name,
    ensures
        lookup(sent_headers(preset, effective(defaults, ttl, Some(extra))), lower_case(name))
            == lookup(extra, name),
{
    lemma_lookup_canonical_plain(extra, name);
    lemma_operation_header_is_sent(preset, defaults, ttl, extra, lower_case(name));
}

/// The name under which the time to live is sent is in small letters already.
proof fn lemma_ttl_name_is_lower()
    ensures
        lower_case("x-ttl"@) == "x-ttl"@,
{
    reveal_strlit("x-ttl");
    assert(lower_case("x-ttl"@) =~= "x-ttl"@);
}

/// A time to live is sent as the header `x-ttl`, in decimal, unless a header
/// of the operation bears that name, the case of letters aside.
pub proof fn lemma_ttl_is_sent(
    preset: Fields,
    defaults: Fields,
    seconds: u64,
    extra: Option<Fields>,
)
    requires
        extra matches Some(more) ==> lookup(canonical(more), "x-ttl"@) is None,
    ensures
        lookup(sent_headers(preset, effective(defaults, Some(seconds), extra)), "x-ttl"@) == Some(
            decimal(seconds as nat),
        ),
{
    let timed = with_field(defaults, "x-ttl"@, decimal(seconds as nat));
    lemma_ttl_name_is_lower();
    lemma_lookup_canonical_with_field(defaults, "x-ttl"@, decimal(seconds as nat), "x-ttl"@);
    if let Some(more) = extra {
        lemma_lookup_canonical_with_fields(timed, more, "x-ttl"@);
    }
    lemma_sent_header(preset, effective(defaults, Some(seconds), extra), "x-ttl"@);
}

/// A read of bytes asks for `application/octet-stream`, whatever the headers
/// of the client and of the operation are.
pub proof fn lemma_raw_read_asks_for_octets(preset: Fields, fields: Fields)
    ensures
        lookup(
            sent_headers(preset, with_field(fields, "accept"@, "application/octet-stream"@)),
            "accept"@,
        ) == Some("application/octet-stream"@),
{
    reveal_strlit("accept");
    assert(lower_case("accept"@) =~= "accept"@);
    lemma_lookup_canonical_with_field(
        fields,
        "accept"@,
        "application/octet-stream"@,
        "accept"@,
    );
    lemma_sent_header(
        preset,
        with_field(fields, "accept"@, "application/octet-stream"@),
        "accept"@,
    );
}

/// A write declares its body as the operation says, unless a header of the
/// client or of the operation is named `content-type`, the case of letters
/// aside; then that header is sent.
pub proof fn lemma_content_type(kind: Seq<char>, fields: Fields)
    ensures
        lookup(sent_headers(seq![("content-type"@, kind)], fields), "content-type"@) == if lookup(
            canonical(fields),
            "content-type"@,
        ) is Some {
            lookup(canonical(fields), "content-type"@)
        } else {
            Some(kind)
        },
{
    let preset = seq![("content-type"@, kind)];
    lemma_sent_header(preset, fields, "content-type"@);
    assert(preset.last() == ("content-type"@, kind));
}

/// The header that a write has before the headers of the operation are set
/// can be sent.
proof fn lemma_presets_sendable()
    ensures
        sendable(json_preset()),
        sendable(octets_preset()),
{
    reveal_strlit("content-type");
    reveal_strlit("application/json");
    reveal_strlit("application/octet-stream");
    assert(lower_case("content-type"@) =~= "content-type"@);
}

/// Every header of a request that the client plans can be sent as it
/// stands: its name is an HTTP token without capital letters, and its value a
/// header value.
pub proof fn lemma_planned_is_sendable(
    method: Method,
    url: Seq<char>,
    fields: Fields,
    body: BodyView,
)
    ensures
        planned(method, url, Seq::empty(), fields, body) matches Ok(request) ==> sendable(
            request.headers,
        ),
        planned(method, url, json_preset(), fields, body) matches Ok(request) ==> sendable(
            request.headers,
        ),
        planned(method, url, octets_preset(), fields, body) matches Ok(request) ==> sendable(
            request.headers,
        ),
{
    lemma_presets_sendable();
    if uri_accepts(url) && first_fault(fields) is None {
        lemma_sent_headers_sendable(Seq::empty(), fields);
        lemma_sent_headers_sendable(json_preset(), fields);
        lemma_sent_headers_sendable(octets_preset(), fields);
    }
}

} // verus!
