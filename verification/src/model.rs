//! A model of the service, against which the requests of the client and its
//! reading of replies are held.
//!
//! The model is a store that keeps under each address what was last put
//! there, until it is removed. It knows neither times to live nor prefixes,
//! and it serves a value in the form in which the value was put.

use crate::client::item_address;
use crate::error::StorageError;
use crate::request::{planned, BodyView, Method, RequestView};
use crate::headers::Fields;
use crate::response::{held, is_success};
use vstd::prelude::*;

verus! {

/// What lies under each address.
pub type Store = Map<Seq<char>, BodyView>;

/// A reply of the model: a status code and a body.
pub struct Reply {
    pub status: u16,
    pub body: BodyView,
}

/// What the store holds after `request`, and what it replies.
pub open spec fn served(store: Store, request: RequestView) -> (Store, Reply) {
    match request.method {
        Method::Put => (
            store.insert(request.url, request.body),
            Reply { status: 200, body: BodyView::Empty },
        ),
        Method::Delete => (store.remove(request.url), Reply { status: 200, body: BodyView::Empty }),
        Method::Get => if store.contains_key(request.url) {
            (store, Reply { status: 200, body: store[request.url] })
        } else {
            (store, Reply { status: 404, body: BodyView::Empty })
        },
        Method::Head => if store.contains_key(request.url) {
            (store, Reply { status: 200, body: BodyView::Empty })
        } else {
            (store, Reply { status: 404, body: BodyView::Empty })
        },
    }
}

/// The request that reads the value under `key`, with the headers `fields`.
pub open spec fn read_request(base_url: Seq<char>, key: Seq<char>, fields: Fields) -> Result<
    RequestView,
    StorageError,
> {
    planned(Method::Get, item_address(base_url, key), Seq::empty(), fields, BodyView::Empty)
}

/// The request that asks whether a value lies under `key`, with the headers
/// `fields`.
pub open spec fn probe_request(base_url: Seq<char>, key: Seq<char>, fields: Fields) -> Result<
    RequestView,
    StorageError,
> {
    planned(Method::Head, item_address(base_url, key), Seq::empty(), fields, BodyView::Empty)
}

/// The request that removes the value under `key`, with the headers `fields`.
pub open spec fn removal_request(base_url: Seq<char>, key: Seq<char>, fields: Fields) -> Result<
    RequestView,
    StorageError,
> {
    planned(Method::Delete, item_address(base_url, key), Seq::empty(), fields, BodyView::Empty)
}

/// The request that writes `body` under `key`, with the headers `fields` set
/// after those of `preset`.
pub open spec fn write_request(
    base_url: Seq<char>,
    key: Seq<char>,
    preset: Fields,
    fields: Fields,
    body: BodyView,
) -> Result<RequestView, StorageError> {
    planned(Method::Put, item_address(base_url, key), preset, fields, body)
}

/// Two keys have the same address under one base URL only if they are the
/// same key.
pub proof fn lemma_addresses_differ(base_url: Seq<char>, key: Seq<char>, other: Seq<char>)
    ensures
        item_address(base_url, key) == item_address(base_url, other) <==> key == other,
{
    let a = item_address(base_url, key);
    let b = item_address(base_url, other);
    if a == b {
        let skip = base_url.len() + 1;
        assert(a.subrange(skip as int, a.len() as int) =~= key);
        assert(b.subrange(skip as int, b.len() as int) =~= other);
    }
}

/// A value that was written is read back as it was written: after the write
/// the reply to a read of the same key reports success and bears the value,
/// so the client hands the value out.
pub proof fn lemma_write_then_read(
    store: Store,
    base_url: Seq<char>,
    key: Seq<char>,
    preset: Fields,
    write_fields: Fields,
    read_fields: Fields,
    body: BodyView,
)
    requires
        write_request(base_url, key, preset, write_fields, body) is Ok,
        read_request(base_url, key, read_fields) is Ok,
    ensures
        ({
            let write = write_request(base_url, key, preset, write_fields, body)->Ok_0;
            let read = read_request(base_url, key, read_fields)->Ok_0;
            let reply = served(served(store, write).0, read).1;
            &&& reply.body == body
            &&& forall|value: Seq<char>|
                body == BodyView::Text(value) ==> held(reply.status, Some(value)) == Some(value)
            &&& forall|value: Seq<u8>|
                body == BodyView::Bytes(value) ==> held(reply.status, Some(value)) == Some(value)
        }),
{
}

/// A key that was never written is read as nothing, and that is no error:
/// the reply does not report success, whatever its body is taken to be.
pub proof fn lemma_absent_reads_nothing<T>(
    store: Store,
    base_url: Seq<char>,
    key: Seq<char>,
    read_fields: Fields,
    body: Option<T>,
)
    requires
        !store.contains_key(item_address(base_url, key)),
        read_request(base_url, key, read_fields) is Ok,
    ensures
        ({
            let read = read_request(base_url, key, read_fields)->Ok_0;
            let reply = served(store, read).1;
            &&& !is_success(reply.status)
            &&& held(reply.status, body) is None
        }),
{
}

/// Asking whether a key is stored tells whether a value lies under its
/// address, and changes nothing.
pub proof fn lemma_probe_tells_presence(
    store: Store,
    base_url: Seq<char>,
    key: Seq<char>,
    fields: Fields,
)
    requires
        probe_request(base_url, key, fields) is Ok,
    ensures
        ({
            let probe = probe_request(base_url, key, fields)->Ok_0;
            &&& is_success(served(store, probe).1.status) <==> store.contains_key(
                item_address(base_url, key),
            )
            &&& served(store, probe).0 == store
        }),
{
}

/// After a write a value lies under the key, and under every other key what
/// lay there before.
pub proof fn lemma_write_stores(
    store: Store,
    base_url: Seq<char>,
    key: Seq<char>,
    preset: Fields,
    fields: Fields,
    body: BodyView,
    other: Seq<char>,
)
    requires
        write_request(base_url, key, preset, fields, body) is Ok,
    ensures
        ({
            let write = write_request(base_url, key, preset, fields, body)->Ok_0;
            let after = served(store, write).0;
            &&& after.contains_key(item_address(base_url, key))
            &&& other != key ==> (after.contains_key(item_address(base_url, other))
                <==> store.contains_key(item_address(base_url, other)))
        }),
{
    lemma_addresses_differ(base_url, key, other);
}

/// After a removal nothing lies under the key: asking for it does not report
/// success, and a read holds nothing. Under every other key lies what lay
/// there before.
pub proof fn lemma_removed_is_absent<T>(
    store: Store,
    base_url: Seq<char>,
    key: Seq<char>,
    removal_fields: Fields,
    later_fields: Fields,
    body: Option<T>,
    other: Seq<char>,
)
    requires
        removal_request(base_url, key, removal_fields) is Ok,
        probe_request(base_url, key, later_fields) is Ok,
    ensures
        ({
            let removal = removal_request(base_url, key, removal_fields)->Ok_0;
            let after = served(store, removal).0;
            let probe = probe_request(base_url, key, later_fields)->Ok_0;
            let read = read_request(base_url, key, later_fields)->Ok_0;
            &&& read_request(base_url, key, later_fields) is Ok
            &&& !is_success(served(after, probe).1.status)
            &&& held(served(after, read).1.status, body) is None
            &&& other != key ==> (after.contains_key(item_address(base_url, other))
                <==> store.contains_key(item_address(base_url, other)))
        }),
{
    lemma_addresses_differ(base_url, key, other);
}

} // verus!
