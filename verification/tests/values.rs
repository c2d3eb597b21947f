use ptconductor::values::{InputValue, ValueMap};

#[test]
fn a_read_gives_back_the_last_write() {
    let mut map = ValueMap::new();
    map.insert("B".to_owned(), InputValue::Bool(true));
    map.insert("A".to_owned(), InputValue::Null);
    map.insert("B".to_owned(), InputValue::Number("3".to_owned()));
    assert_eq!(map.len(), 2);
    assert_eq!(map.get("B"), Some(&InputValue::Number("3".to_owned())));
    assert_eq!(map.get("A"), Some(&InputValue::Null));
    assert_eq!(map.get("C"), None);
}

#[test]
fn keys_stay_in_name_order() {
    let mut map = ValueMap::new();
    for key in ["TOKEN", "A_1", "TARGET", "B", "A"] {
        map.insert(key.to_owned(), InputValue::String(key.to_lowercase()));
    }
    let keys: Vec<String> = (0..map.len()).map(|i| map.key_at(i).clone()).collect();
    assert_eq!(keys, vec!["A", "A_1", "B", "TARGET", "TOKEN"]);
    assert_eq!(map.value_at(0), &InputValue::String("a".to_owned()));
}

#[test]
fn removal_returns_the_value() {
    let mut map = ValueMap::new();
    map.insert("A".to_owned(), InputValue::Bool(false));
    assert_eq!(map.remove("A"), Some(InputValue::Bool(false)));
    assert_eq!(map.remove("A"), None);
    assert_eq!(map.len(), 0);
    let copy = map.duplicate();
    assert_eq!(copy, map);
}
