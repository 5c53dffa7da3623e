use std::collections::BTreeMap;
use unstorage::{Body, Method, Request, Response, TransactionOptions, UnstorageClient};

/// A store in memory that answers requests as the service does.
struct Store {
    held: BTreeMap<String, Body>,
}

impl Store {
    fn new() -> Store {
        Store { held: BTreeMap::new() }
    }

    fn serve(&mut self, request: Request) -> (Response, Body) {
        let found = |status: u16| Response { status, headers: Vec::new() };
        match request.method {
            Method::Put => {
                self.held.insert(request.url, request.body);
                (found(200), Body::Empty)
            }
            Method::Delete => {
                if request.url.ends_with(':') {
                    let prefix = request.url.clone();
                    self.held.retain(|url, _| !url.starts_with(&prefix));
                } else {
                    self.held.remove(&request.url);
                }
                (found(200), Body::Empty)
            }
            Method::Get => {
                if request.url.ends_with(':') {
                    let keys: Vec<String> = self
                        .held
                        .keys()
                        .filter(|url| url.starts_with(&request.url))
                        .map(|url| url.rsplit('/').next().unwrap().to_string())
                        .collect();
                    return (found(200), Body::Text(serde_json::to_string(&keys).unwrap()));
                }
                match self.held.get(&request.url) {
                    Some(body) => (found(200), body.clone()),
                    None => (found(404), Body::Text("not found".to_string())),
                }
            }
            Method::Head => match self.held.contains_key(&request.url) {
                true => (found(200), Body::Empty),
                false => (found(404), Body::Empty),
            },
        }
    }
}

fn text(reply: &Response, body: Body) -> Option<String> {
    match (reply.reads_body(), body) {
        (true, Body::Text(text)) => Some(text),
        (true, Body::Bytes(bytes)) => Some(String::from_utf8(bytes).unwrap()),
        _ => None,
    }
}

fn bytes(reply: &Response, body: Body) -> Option<Vec<u8>> {
    match (reply.reads_body(), body) {
        (true, Body::Text(text)) => Some(text.into_bytes()),
        (true, Body::Bytes(bytes)) => Some(bytes),
        _ => None,
    }
}

fn set_item(store: &mut Store, client: &UnstorageClient, key: &str, value: &str) {
    store.serve(client.set_item(key, value, None).unwrap());
}

fn get_item(store: &mut Store, client: &UnstorageClient, key: &str) -> Option<String> {
    let (reply, body) = store.serve(client.get_item(key, None).unwrap());
    let read = text(&reply, body);
    reply.get_item(read)
}

fn has_item(store: &mut Store, client: &UnstorageClient, key: &str) -> bool {
    let (reply, _) = store.serve(client.has_item(key, None).unwrap());
    reply.has_item()
}

fn remove_item(store: &mut Store, client: &UnstorageClient, key: &str) {
    store.serve(client.remove_item(key, None).unwrap());
}

#[test]
fn test_unstorage_client() {
    let mut store = Store::new();
    let client = UnstorageClient::new("http://localhost:3000".to_string(), None);
    let key = "test";
    let value = "Hello, World!";

    set_item(&mut store, &client, key, value);
    let item = get_item(&mut store, &client, key).unwrap();
    assert_eq!(item, value);
}

#[test]
fn test_set_and_get_item_json() {
    let mut store = Store::new();
    let client = UnstorageClient::new("http://localhost:3000".to_string(), None);
    let key = "test_json";
    let mut value = serde_json::Map::new();
    value.insert("name".to_string(), serde_json::Value::from("Alice"));
    value.insert("age".to_string(), serde_json::Value::from(30));

    let request = client.set_item_json(key, serde_json::to_string(&value), None).unwrap();
    store.serve(request);

    let (reply, body) = store.serve(client.get_item_json(key, None).unwrap());
    let parsed =
        text(&reply, body).map(|read| serde_json::from_str::<serde_json::Map<String, serde_json::Value>>(&read));
    let retrieved = reply.get_item_json(parsed).unwrap();
    assert!(retrieved.is_some());
    assert_eq!(retrieved.unwrap(), value);
}

#[test]
fn text_that_was_set_is_read_back() {
    let mut store = Store::new();
    let client = UnstorageClient::new("http://localhost:3000".to_string(), None);
    for (key, value) in [("a", ""), ("b", "plain"), ("c:d", "{\"x\":1}"), ("e", "caf\u{e9}\n\u{4e2d}")] {
        set_item(&mut store, &client, key, value);
        assert_eq!(get_item(&mut store, &client, key), Some(value.to_string()));
    }
    set_item(&mut store, &client, "a", "again");
    assert_eq!(get_item(&mut store, &client, "a"), Some("again".to_string()));
    assert_eq!(get_item(&mut store, &client, "b"), Some("plain".to_string()));
}

#[test]
fn bytes_that_were_set_are_read_back() {
    let mut store = Store::new();
    let client = UnstorageClient::new("http://localhost:3000".to_string(), None);
    let value = vec![0u8, 1, 2, 254, 255];
    store.serve(client.set_item_raw("raw", &value, None).unwrap());
    let (reply, body) = store.serve(client.get_item_raw("raw", None).unwrap());
    let read = bytes(&reply, body);
    assert_eq!(reply.get_item_raw(read), Some(value));
}

#[test]
fn key_that_was_never_written_is_absent() {
    let mut store = Store::new();
    let client = UnstorageClient::new("http://localhost:3000".to_string(), None);
    assert_eq!(get_item(&mut store, &client, "missing"), None);
    assert!(!has_item(&mut store, &client, "missing"));
    let (reply, body) = store.serve(client.get_item_raw("missing", None).unwrap());
    let read = bytes(&reply, body);
    assert_eq!(reply.get_item_raw(read), None);
    let (reply, body) = store.serve(client.get_item_json("missing", None).unwrap());
    let parsed = text(&reply, body).map(|read| serde_json::from_str::<u32>(&read));
    assert_eq!(reply.get_item_json(parsed), Ok(None));
    let (reply, _) = store.serve(client.get_meta("missing", None).unwrap());
    assert_eq!(reply.get_meta(), None);
}

#[test]
fn item_is_there_from_its_writing_to_its_removal() {
    let mut store = Store::new();
    let client = UnstorageClient::new("http://localhost:3000".to_string(), None);
    assert!(!has_item(&mut store, &client, "k"));
    set_item(&mut store, &client, "k", "v");
    assert!(has_item(&mut store, &client, "k"));
    assert!(!has_item(&mut store, &client, "other"));
    assert!(has_item(&mut store, &client, "k"));
    remove_item(&mut store, &client, "k");
    assert!(!has_item(&mut store, &client, "k"));
    set_item(&mut store, &client, "k", "w");
    assert!(has_item(&mut store, &client, "k"));
}

#[test]
fn item_that_was_removed_is_absent() {
    let mut store = Store::new();
    let client = UnstorageClient::new("http://localhost:3000".to_string(), None);
    set_item(&mut store, &client, "k", "v");
    set_item(&mut store, &client, "kept", "w");
    remove_item(&mut store, &client, "k");
    assert!(!has_item(&mut store, &client, "k"));
    assert_eq!(get_item(&mut store, &client, "k"), None);
    assert_eq!(get_item(&mut store, &client, "kept"), Some("w".to_string()));
    remove_item(&mut store, &client, "k");
    assert_eq!(get_item(&mut store, &client, "k"), None);
}

#[test]
fn keys_are_listed_and_cleared_by_prefix() {
    let mut store = Store::new();
    let client = UnstorageClient::new("http://localhost:3000".to_string(), None);
    set_item(&mut store, &client, "ns:a", "1");
    set_item(&mut store, &client, "ns:b", "2");
    set_item(&mut store, &client, "other:c", "3");
    let (reply, body) = store.serve(client.get_keys("ns", None).unwrap());
    let read = text(&reply, body);
    assert_eq!(
        reply.get_keys(read.as_deref()),
        Ok(Some(vec!["ns:a".to_string(), "ns:b".to_string()]))
    );
    store.serve(client.clear("ns", None).unwrap());
    assert!(!has_item(&mut store, &client, "ns:a"));
    assert!(!has_item(&mut store, &client, "ns:b"));
    assert!(has_item(&mut store, &client, "other:c"));
}

#[test]
fn time_to_live_that_is_sent_can_be_read_back() {
    let client = UnstorageClient::new("http://localhost:3000".to_string(), None);
    for seconds in [0u64, 1, 60, 86400, u64::MAX] {
        let timed = TransactionOptions { headers: None, ttl: Some(seconds) };
        let request = client.set_item("k", "v", Some(&timed)).unwrap();
        let sent = request.headers.get("x-ttl").cloned();
        let reply = Response { status: 200, headers: vec![("x-ttl".to_string(), sent)] };
        assert_eq!(reply.get_meta().unwrap().ttl, Some(seconds));
    }
}
