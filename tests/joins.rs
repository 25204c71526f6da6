use mangga::error::Error;
use mangga::field::{Arity, FieldDescriptor, FieldType, IsJoinOutputArray, JoinInfo};
use mangga::join::{decode_join, decode_joins, JoinSpec};
use mangga::model::{ItemAttrs, ModelDescriptor};
use mangga::value::{Document, Value};

fn s(x: &str) -> String {
    x.to_string()
}

fn x(n: i32) -> Value {
    let mut d = Document::new();
    d.insert(s("x"), Value::Int32(n));
    Value::Doc(d)
}

fn join(arity: Arity) -> JoinSpec {
    JoinSpec {
        local_field: s("user_id"),
        from: s("users"),
        foreign_field: s("_id"),
        arity,
        alias: s("user_id_join"),
    }
}

fn holding(v: Value) -> Document {
    let mut d = Document::new();
    d.insert(s("_id"), Value::Int32(7));
    d.insert(s("user_id_join"), v);
    d
}

#[test]
fn scalar_join_takes_first_array_element() {
    let d = holding(Value::Array(vec![x(1), x(2)]));
    assert_eq!(decode_join(&d, &join(Arity::One)), Ok(x(1)));
}

#[test]
fn scalar_join_of_empty_array_is_not_found() {
    let d = holding(Value::Array(vec![]));
    assert_eq!(decode_join(&d, &join(Arity::One)), Err(Error::NotFound));
}

#[test]
fn many_join_takes_whole_array() {
    let d = holding(Value::Array(vec![x(1), x(2)]));
    assert_eq!(decode_join(&d, &join(Arity::Many)), Ok(Value::Array(vec![x(1), x(2)])));
}

#[test]
fn many_join_wraps_single_document() {
    let d = holding(x(1));
    assert_eq!(decode_join(&d, &join(Arity::Many)), Ok(Value::Array(vec![x(1)])));
    assert_eq!(decode_join(&d, &join(Arity::One)), Ok(x(1)));
}

#[test]
fn missing_alias_is_not_found() {
    let mut d = Document::new();
    d.insert(s("_id"), Value::Int32(7));
    assert_eq!(decode_join(&d, &join(Arity::Many)), Err(Error::NotFound));
}

#[test]
fn scalar_at_alias_is_not_found() {
    let d = holding(Value::Str(s("oops")));
    assert_eq!(decode_join(&d, &join(Arity::One)), Err(Error::NotFound));
}

#[test]
fn decode_joins_keeps_join_order() {
    let mut d = holding(Value::Array(vec![x(1), x(2)]));
    d.insert(s("store_id_join"), Value::Array(vec![x(3)]));
    let store = JoinSpec {
        local_field: s("store_id"),
        from: s("stores"),
        foreign_field: s("_id"),
        arity: Arity::One,
        alias: s("store_id_join"),
    };
    let res = decode_joins(d, &vec![store, join(Arity::Many)]).unwrap();
    assert_eq!(res.joined, vec![x(3), Value::Array(vec![x(1), x(2)])]);
    assert_eq!(res.primary.get("_id"), Some(&Value::Int32(7)));
}

#[test]
fn decode_joins_fails_when_one_is_missing() {
    let d = holding(Value::Array(vec![]));
    assert_eq!(decode_joins(d, &vec![join(Arity::Many), join(Arity::One)]), Err(Error::NotFound));
}

#[test]
fn joinable_field_gives_lookup_stage() {
    let info = JoinInfo { target_collection: s("users"), target_field: s("_id"), arity: Arity::One };
    assert!(!info.is_array());
    assert!(Arity::Many.is_array());
    let f = FieldDescriptor::new(s("user_id"), FieldType::Id, s("books")).with_join(info);
    let j = f.as_join().unwrap();
    assert_eq!(j, join(Arity::One));
    let mut inner = Document::new();
    inner.insert(s("from"), Value::Str(s("users")));
    inner.insert(s("localField"), Value::Str(s("user_id")));
    inner.insert(s("foreignField"), Value::Str(s("_id")));
    inner.insert(s("as"), Value::Str(s("user_id_join")));
    let mut stage = Document::new();
    stage.insert(s("$lookup"), Value::Doc(inner));
    assert_eq!(j.lookup(), Value::Doc(stage));
}

#[test]
fn plain_field_has_no_join() {
    let f = FieldDescriptor::new(s("title"), FieldType::Str, s("books"));
    assert!(f.as_join().is_none());
}

#[test]
fn model_joins_follow_declaration_order() {
    let to = |coll: &str| JoinInfo { target_collection: s(coll), target_field: s("_id"), arity: Arity::One };
    let fields = vec![
        FieldDescriptor::new(s("_id"), FieldType::Id, s("books")),
        FieldDescriptor::new(s("user_id"), FieldType::Id, s("books")).with_join(to("users")),
        FieldDescriptor::new(s("title"), FieldType::Str, s("books")),
        FieldDescriptor::new(s("store_id"), FieldType::Id, s("books")).with_join(to("stores")),
    ];
    let attrs = ItemAttrs::new(s("books"), s("db1")).unwrap();
    let model = ModelDescriptor::new(attrs, fields, vec![]).unwrap();
    let joins = model.join_specs();
    assert_eq!(joins.len(), 2);
    assert_eq!(joins[0], join(Arity::One));
    assert_eq!(joins[1].alias, "store_id_join");
    assert_eq!(joins[1].from, "stores");
}
