use regextract::json::{entries_get, entries_insert, JsonValue};

fn s(text: &str) -> String {
    text.to_string()
}

#[test]
fn insert_overwrites_in_place_and_keeps_order() {
    let mut entries: Vec<(String, JsonValue)> = vec![
        (s("a"), JsonValue::Bool(true)),
        (s("b"), JsonValue::Null),
        (s("c"), JsonValue::Num(s("3"))),
    ];
    entries_insert(&mut entries, "b", JsonValue::Str(s("new")));
    assert_eq!(entries.len(), 3);
    assert_eq!(entries[0], (s("a"), JsonValue::Bool(true)));
    assert_eq!(entries[1], (s("b"), JsonValue::Str(s("new"))));
    assert_eq!(entries[2], (s("c"), JsonValue::Num(s("3"))));
}

#[test]
fn insert_appends_an_absent_key() {
    let mut entries: Vec<(String, JsonValue)> = vec![(s("a"), JsonValue::Null)];
    entries_insert(&mut entries, "b", JsonValue::Bool(false));
    assert_eq!(entries.len(), 2);
    assert_eq!(entries[1], (s("b"), JsonValue::Bool(false)));
}

#[test]
fn two_inserts_at_one_key_keep_the_second_value() {
    let mut entries: Vec<(String, JsonValue)> = Vec::new();
    entries_insert(&mut entries, "x", JsonValue::Str(s("first")));
    entries_insert(&mut entries, "x", JsonValue::Str(s("second")));
    assert_eq!(entries.len(), 1);
    assert_eq!(entries_get(&entries, "x"), Some(&JsonValue::Str(s("second"))));
}

#[test]
fn lookup_distinguishes_keys_by_their_text() {
    let entries: Vec<(String, JsonValue)> = vec![
        (s("key"), JsonValue::Bool(true)),
        (s("key2"), JsonValue::Bool(false)),
    ];
    assert_eq!(entries_get(&entries, "key"), Some(&JsonValue::Bool(true)));
    assert_eq!(entries_get(&entries, "key2"), Some(&JsonValue::Bool(false)));
    assert_eq!(entries_get(&entries, "ke"), None);
    assert_eq!(entries_get(&entries, "key3"), None);
}
