use unstorage::{is_success, Meta, Response, StorageError, Timestamp};

fn reply(status: u16, headers: &[(&str, Option<&str>)]) -> Response {
    Response {
        status,
        headers: headers
            .iter()
            .map(|(name, value)| (name.to_string(), value.map(|text| text.to_string())))
            .collect(),
    }
}

#[test]
fn success_is_200_to_299() {
    for status in [200u16, 201, 204, 250, 299] {
        assert!(is_success(status), "on {}", status);
    }
    for status in [0u16, 100, 199, 300, 301, 404, 500, 999, u16::MAX] {
        assert!(!is_success(status), "on {}", status);
    }
}

#[test]
fn body_is_read_on_success_only() {
    assert!(reply(200, &[]).reads_body());
    assert!(reply(204, &[]).reads_body());
    assert!(!reply(404, &[]).reads_body());
    assert!(!reply(500, &[]).reads_body());
}

#[test]
fn has_item_goes_by_the_status() {
    assert!(reply(200, &[]).has_item());
    assert!(reply(299, &[]).has_item());
    assert!(!reply(199, &[]).has_item());
    assert!(!reply(300, &[]).has_item());
    assert!(!reply(404, &[]).has_item());
}

#[test]
fn get_item_hands_out_the_body_of_a_success() {
    assert_eq!(
        reply(200, &[]).get_item(Some("Hello, World!".to_string())),
        Some("Hello, World!".to_string())
    );
    assert_eq!(reply(200, &[]).get_item(Some(String::new())), Some(String::new()));
    assert_eq!(reply(200, &[]).get_item(None), None);
    assert_eq!(reply(404, &[]).get_item(None), None);
    assert_eq!(reply(404, &[]).get_item(Some("not found".to_string())), None);
    assert_eq!(reply(500, &[]).get_item(Some("oops".to_string())), None);
}

#[test]
fn get_item_raw_hands_out_the_bytes_of_a_success() {
    assert_eq!(reply(200, &[]).get_item_raw(Some(vec![0, 159, 146, 150])), Some(vec![0, 159, 146, 150]));
    assert_eq!(reply(200, &[]).get_item_raw(Some(Vec::new())), Some(Vec::new()));
    assert_eq!(reply(200, &[]).get_item_raw(None), None);
    assert_eq!(reply(404, &[]).get_item_raw(Some(vec![1, 2, 3])), None);
}

#[test]
fn get_item_json_passes_the_value_on() {
    let parsed = serde_json::from_str::<u32>("30");
    assert_eq!(reply(200, &[]).get_item_json(Some(parsed)), Ok(Some(30)));
    assert_eq!(reply(200, &[]).get_item_json::<u32>(None), Ok(None));
}

#[test]
fn get_item_json_reports_a_body_that_is_not_the_json_asked_for() {
    let parsed = serde_json::from_str::<u32>("\"thirty\"");
    assert_eq!(reply(200, &[]).get_item_json(Some(parsed)), Err(StorageError::Decode));
    let parsed = serde_json::from_str::<u32>("{");
    assert_eq!(reply(201, &[]).get_item_json(Some(parsed)), Err(StorageError::Decode));
}

#[test]
fn get_item_json_of_a_failure_is_nothing_and_no_error() {
    let parsed = serde_json::from_str::<u32>("not json");
    assert_eq!(reply(404, &[]).get_item_json(Some(parsed)), Ok(None));
    let parsed = serde_json::from_str::<u32>("30");
    assert_eq!(reply(500, &[]).get_item_json(Some(parsed)), Ok(None));
    assert_eq!(reply(404, &[]).get_item_json::<u32>(None), Ok(None));
}

#[test]
fn get_keys_lists_the_strings_in_their_order() {
    let keys = reply(200, &[]).get_keys(Some("[\"ns:a\",\"ns:b\"]"));
    assert_eq!(keys, Ok(Some(vec!["ns:a".to_string(), "ns:b".to_string()])));
    let keys = reply(200, &[]).get_keys(Some(" [ \"b\" , \"a\", \"b\", \"\\u00e9\\n\" ] "));
    assert_eq!(
        keys,
        Ok(Some(vec!["b".to_string(), "a".to_string(), "b".to_string(), "\u{e9}\n".to_string()]))
    );
    assert_eq!(reply(200, &[]).get_keys(Some("[]")), Ok(Some(Vec::new())));
}

#[test]
fn get_keys_reports_a_body_that_is_no_array_of_strings() {
    for body in ["", "{}", "[1,2]", "[\"a\",]", "\"a\"", "null", "[\"a\"] x", "[\"a\""] {
        assert_eq!(reply(200, &[]).get_keys(Some(body)), Err(StorageError::Decode), "on {:?}", body);
    }
}

#[test]
fn get_keys_of_a_failure_is_nothing_and_no_error() {
    assert_eq!(reply(404, &[]).get_keys(None), Ok(None));
    assert_eq!(reply(404, &[]).get_keys(Some("not json")), Ok(None));
    assert_eq!(reply(500, &[]).get_keys(Some("[\"a\"]")), Ok(None));
    assert_eq!(reply(200, &[]).get_keys(None), Ok(None));
}

#[test]
fn get_meta_reads_last_modified_as_utc() {
    let found = reply(200, &[("last-modified", Some("Mon, 01 Jan 2024 00:00:00 GMT"))]);
    assert_eq!(
        found.get_meta(),
        Some(Meta { mtime: Some(Timestamp { secs: 1704067200, nanos: 0 }), ttl: None })
    );
    let found = reply(200, &[("last-modified", Some("Mon, 01 Jan 2024 02:00:00 +0200"))]);
    assert_eq!(
        found.get_meta(),
        Some(Meta { mtime: Some(Timestamp { secs: 1704067200, nanos: 0 }), ttl: None })
    );
    let found = reply(200, &[("last-modified", Some("Wed, 18 Feb 2015 23:16:09 GMT"))]);
    assert_eq!(
        found.get_meta(),
        Some(Meta { mtime: Some(Timestamp { secs: 1424301369, nanos: 0 }), ttl: None })
    );
    let found = reply(200, &[("last-modified", Some("Wed, 31 Dec 1969 23:59:59 GMT"))]);
    assert_eq!(
        found.get_meta(),
        Some(Meta { mtime: Some(Timestamp { secs: -1, nanos: 0 }), ttl: None })
    );
}

#[test]
fn get_meta_without_last_modified_has_no_time() {
    assert_eq!(reply(200, &[]).get_meta(), Some(Meta { mtime: None, ttl: None }));
    let found = reply(200, &[("content-type", Some("text/plain"))]);
    assert_eq!(found.get_meta(), Some(Meta { mtime: None, ttl: None }));
}

#[test]
fn get_meta_takes_a_date_that_cannot_be_read_as_absent() {
    for date in ["", "yesterday", "2024-01-01T00:00:00Z", "Tue, 01 Jan 2024 00:00:00 GMT", "Mon, 32 Jan 2024 00:00:00 GMT"] {
        let found = reply(200, &[("last-modified", Some(date))]);
        assert_eq!(found.get_meta(), Some(Meta { mtime: None, ttl: None }), "on {:?}", date);
    }
    let found = reply(200, &[("last-modified", None)]);
    assert_eq!(found.get_meta(), Some(Meta { mtime: None, ttl: None }));
}

#[test]
fn get_meta_reads_the_time_to_live_in_seconds() {
    let found = reply(200, &[("x-ttl", Some("60"))]);
    assert_eq!(found.get_meta(), Some(Meta { mtime: None, ttl: Some(60) }));
    let found = reply(200, &[("x-ttl", Some("0"))]);
    assert_eq!(found.get_meta(), Some(Meta { mtime: None, ttl: Some(0) }));
    let found = reply(200, &[("x-ttl", Some("18446744073709551615"))]);
    assert_eq!(found.get_meta(), Some(Meta { mtime: None, ttl: Some(u64::MAX) }));
    for text in ["", "-1", "1.5", "60s", " 60", "18446744073709551616"] {
        let found = reply(200, &[("x-ttl", Some(text))]);
        assert_eq!(found.get_meta(), Some(Meta { mtime: None, ttl: None }), "on {:?}", text);
    }
    let found = reply(200, &[("x-ttl", None)]);
    assert_eq!(found.get_meta(), Some(Meta { mtime: None, ttl: None }));
}

#[test]
fn get_meta_reads_both_headers() {
    let found = reply(
        204,
        &[
            ("content-length", Some("0")),
            ("x-ttl", Some("3600")),
            ("last-modified", Some("Mon, 01 Jan 2024 00:00:00 GMT")),
        ],
    );
    assert_eq!(
        found.get_meta(),
        Some(Meta { mtime: Some(Timestamp { secs: 1704067200, nanos: 0 }), ttl: Some(3600) })
    );
}

#[test]
fn get_meta_of_a_failure_is_nothing() {
    let missing = reply(
        404,
        &[("x-ttl", Some("60")), ("last-modified", Some("Mon, 01 Jan 2024 00:00:00 GMT"))],
    );
    assert_eq!(missing.get_meta(), None);
    assert_eq!(reply(500, &[]).get_meta(), None);
    assert_eq!(reply(199, &[]).get_meta(), None);
    assert_eq!(reply(300, &[]).get_meta(), None);
}

#[test]
fn header_text_is_that_of_the_first_field_of_the_name() {
    let found = reply(200, &[("x-ttl", Some("1")), ("x-ttl", Some("2")), ("etag", Some("abc"))]);
    assert_eq!(found.header_text("x-ttl"), Some(&"1".to_string()));
    assert_eq!(found.header_text("etag"), Some(&"abc".to_string()));
    assert_eq!(found.header_text("X-TTL"), None);
    assert_eq!(found.header_text("missing"), None);
    assert_eq!(found.get_meta(), Some(Meta { mtime: None, ttl: Some(1) }));
    let found = reply(200, &[("x-ttl", None), ("x-ttl", Some("2"))]);
    assert_eq!(found.header_text("x-ttl"), None);
    assert_eq!(found.get_meta(), Some(Meta { mtime: None, ttl: None }));
}

#[test]
fn get_meta_with_takes_the_instant_as_given() {
    let at = Timestamp { secs: 12, nanos: 34 };
    let found = reply(200, &[("x-ttl", Some("7")), ("last-modified", Some("never"))]);
    assert_eq!(found.get_meta_with(Some(at)), Some(Meta { mtime: Some(at), ttl: Some(7) }));
    assert_eq!(found.get_meta_with(None), Some(Meta { mtime: None, ttl: Some(7) }));
    assert_eq!(reply(404, &[("x-ttl", Some("7"))]).get_meta_with(Some(at)), None);
}
