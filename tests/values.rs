use mangga::value::{Document, Value, ID};

fn s(x: &str) -> String {
    x.to_string()
}

#[test]
fn insert_appends_new_names_in_order() {
    let mut d = Document::new();
    d.insert(s("a"), Value::Int32(1));
    d.insert(s("b"), Value::Int32(2));
    let names: Vec<&str> = d.entries().iter().map(|(k, _)| k.as_str()).collect();
    assert_eq!(names, vec!["a", "b"]);
}

#[test]
fn insert_replaces_in_place() {
    let mut d = Document::new();
    d.insert(s("a"), Value::Int32(1));
    d.insert(s("b"), Value::Int32(2));
    d.insert(s("a"), Value::Int32(3));
    assert_eq!(d.len(), 2);
    assert_eq!(d.entries()[0], (s("a"), Value::Int32(3)));
    assert_eq!(d.get("a"), Some(&Value::Int32(3)));
    assert_eq!(d.get("c"), None);
}

#[test]
fn deep_clone_copies_nested_values() {
    let mut inner = Document::new();
    inner.insert(s("x"), Value::Array(vec![Value::Int64(1), Value::Other(bson::Bson::Double(1.5))]));
    let v = Value::Doc(inner);
    assert_eq!(v.deep_clone(), v);
}

#[test]
fn id_zeros_has_twelve_zero_bytes() {
    assert_eq!(ID::zeros().bytes(), [0u8; 12]);
    let id = ID::from_bytes([7u8; 12]);
    assert_eq!(id.bytes(), [7u8; 12]);
    mangga::value::is_id::<ID>();
}
