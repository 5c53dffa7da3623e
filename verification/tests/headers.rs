use unstorage::Headers;

fn pairs(list: &[(&str, &str)]) -> Vec<(String, String)> {
    list.iter().map(|(name, value)| (name.to_string(), value.to_string())).collect()
}

fn listed(headers: &Headers) -> Vec<(String, String)> {
    let mut out = Vec::new();
    let mut i = 0;
    while let Some((name, value)) = headers.entry(i) {
        out.push((name.clone(), value.clone()));
        i += 1;
    }
    out
}

#[test]
fn new_headers_are_empty() {
    let headers = Headers::new();
    assert_eq!(headers.len(), 0);
    assert!(headers.is_empty());
    assert_eq!(headers.entry(0), None);
    assert_eq!(headers.get("accept"), None);
    assert_eq!(Headers::default(), Headers::new());
}

#[test]
fn insert_appends_a_new_name() {
    let mut headers = Headers::new();
    headers.insert("a".to_string(), "1".to_string());
    headers.insert("b".to_string(), "2".to_string());
    assert_eq!(listed(&headers), pairs(&[("a", "1"), ("b", "2")]));
    assert_eq!(headers.len(), 2);
    assert!(!headers.is_empty());
    assert_eq!(headers.get("a"), Some(&"1".to_string()));
    assert_eq!(headers.get("b"), Some(&"2".to_string()));
    assert_eq!(headers.get("c"), None);
}

#[test]
fn insert_replaces_and_moves_to_the_end() {
    let mut headers = Headers::from_pairs(&pairs(&[("a", "1"), ("b", "2"), ("c", "3")]));
    headers.insert("a".to_string(), "9".to_string());
    assert_eq!(listed(&headers), pairs(&[("b", "2"), ("c", "3"), ("a", "9")]));
    headers.insert("a".to_string(), "10".to_string());
    assert_eq!(listed(&headers), pairs(&[("b", "2"), ("c", "3"), ("a", "10")]));
}

#[test]
fn names_are_case_sensitive() {
    let mut headers = Headers::new();
    headers.insert("Accept".to_string(), "1".to_string());
    headers.insert("accept".to_string(), "2".to_string());
    assert_eq!(headers.len(), 2);
    assert_eq!(headers.get("Accept"), Some(&"1".to_string()));
    assert_eq!(headers.get("accept"), Some(&"2".to_string()));
    assert_eq!(headers.get("ACCEPT"), None);
}

#[test]
fn from_pairs_keeps_the_later_of_two_equal_names() {
    let headers = Headers::from_pairs(&pairs(&[("a", "1"), ("b", "2"), ("a", "3")]));
    assert_eq!(listed(&headers), pairs(&[("b", "2"), ("a", "3")]));
}

#[test]
fn extend_lets_the_new_fields_win() {
    let mut headers = Headers::from_pairs(&pairs(&[("a", "1"), ("b", "2"), ("c", "3")]));
    let more = Headers::from_pairs(&pairs(&[("b", "20"), ("d", "40")]));
    headers.extend(&more);
    assert_eq!(listed(&headers), pairs(&[("a", "1"), ("c", "3"), ("b", "20"), ("d", "40")]));
    assert_eq!(listed(&more), pairs(&[("b", "20"), ("d", "40")]));
}

#[test]
fn entry_is_none_past_the_end() {
    let headers = Headers::from_pairs(&pairs(&[("a", "1")]));
    assert_eq!(headers.entry(0), Some((&"a".to_string(), &"1".to_string())));
    assert_eq!(headers.entry(1), None);
    assert_eq!(headers.entry(usize::MAX), None);
}

#[test]
fn clone_is_equal_and_independent() {
    let headers = Headers::from_pairs(&pairs(&[("a", "1"), ("b", "2")]));
    let mut copy = headers.clone();
    assert_eq!(copy, headers);
    copy.insert("a".to_string(), "3".to_string());
    assert_eq!(listed(&headers), pairs(&[("a", "1"), ("b", "2")]));
    assert_eq!(listed(&copy), pairs(&[("b", "2"), ("a", "3")]));
}

#[test]
fn empty_names_and_values_are_kept() {
    let mut headers = Headers::new();
    headers.insert(String::new(), String::new());
    assert_eq!(headers.get(""), Some(&String::new()));
    assert_eq!(headers.len(), 1);
}
