use upload::Headers;

#[test]
fn header_override_last_write_wins() {
    let mut h = Headers::new();
    h.insert(String::from("X"), String::from("1"));
    h.insert(String::from("X"), String::from("2"));
    assert_eq!(h.get(&String::from("X")).unwrap().as_str(), "2");
    assert_eq!(h.len(), 1);
}

#[test]
fn override_touches_no_other_key() {
    let mut h = Headers::new();
    h.insert(String::from("Accept"), String::from("*/*"));
    h.insert(String::from("X"), String::from("1"));
    h.insert(String::from("X"), String::from("2"));
    assert_eq!(h.get(&String::from("Accept")).unwrap().as_str(), "*/*");
    assert_eq!(h.get(&String::from("X")).unwrap().as_str(), "2");
    assert_eq!(h.len(), 2);
}

#[test]
fn missing_key_is_absent() {
    let mut h = Headers::new();
    assert!(h.get(&String::from("X")).is_none());
    h.insert(String::from("X"), String::from("1"));
    assert!(h.get(&String::from("Y")).is_none());
}

#[test]
fn entries_keep_every_distinct_header() {
    let mut h = Headers::new();
    h.insert(String::from("A"), String::from("1"));
    h.insert(String::from("B"), String::from("2"));
    h.insert(String::from("A"), String::from("3"));
    let entries = h.entries().clone();
    assert_eq!(
        entries,
        vec![
            (String::from("A"), String::from("3")),
            (String::from("B"), String::from("2")),
        ]
    );
}
