use watchwoman::{Members, Value};

#[test]
fn members_keep_their_order() {
    let mut m = Members::new();
    assert_eq!(m.len(), 0);
    m.insert("z".to_string(), Value::Int(1));
    m.insert("a".to_string(), Value::Int(2));
    m.insert("z".to_string(), Value::Int(3));
    assert_eq!(m.len(), 2);
    let (k, v) = m.get_index(0).unwrap();
    assert_eq!((k.as_str(), v), ("z", &Value::Int(3)));
    let (k, v) = m.get_index(1).unwrap();
    assert_eq!((k.as_str(), v), ("a", &Value::Int(2)));
    assert!(m.get_index(2).is_none());
}

#[test]
fn what_was_stored_is_found() {
    let mut m = Members::new();
    m.insert("a".to_string(), Value::Int(1));
    m.insert("b".to_string(), Value::Int(2));
    assert_eq!(m.get("a"), Some(&Value::Int(1)));
    assert_eq!(m.get("b"), Some(&Value::Int(2)));
    assert_eq!(m.get("c"), None);
    assert!(m.contains_key("a"));
    assert!(!m.contains_key("c"));
    m.insert("a".to_string(), Value::Null);
    assert_eq!(m.get("a"), Some(&Value::Null));
    assert_eq!(m.get("b"), Some(&Value::Int(2)));
}

#[test]
fn values_are_told_apart() {
    let s = Value::String("x".to_string());
    let i = Value::Int(4);
    let a = Value::Array(vec![Value::Null]);
    let o = Value::Object(Members::new());
    assert_eq!(s.as_str(), Some("x"));
    assert_eq!(i.as_str(), None);
    assert_eq!(i.as_i64(), Some(4));
    assert_eq!(Value::Real("4".to_string()).as_i64(), None);
    assert_eq!(a.as_array().map(|v| v.len()), Some(1));
    assert!(o.as_array().is_none());
    assert!(o.as_object().is_some());
    assert!(a.as_object().is_none());
    assert_eq!(Value::Bytes(vec![1]).as_str(), None);
}
