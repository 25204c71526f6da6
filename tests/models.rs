use mangga::field::{FieldDescriptor, FieldType};
use mangga::filter::Filter;
use mangga::index::IndexSpec;
use mangga::model::{ItemAttrs, ModelDescriptor, ModelError};
use mangga::update::UpdateValue;
use mangga::value::{Document, Value};

fn s(x: &str) -> String {
    x.to_string()
}

fn field(n: &str, t: FieldType) -> FieldDescriptor {
    FieldDescriptor::new(s(n), t, s("users"))
}

fn attrs() -> ItemAttrs {
    ItemAttrs::new(s("users"), s("db1")).unwrap()
}

fn index(field: &str, name: &str) -> IndexSpec {
    IndexSpec { field: s(field), name: s(name), order: 1, unique: true, ttl: None }
}

fn user_model() -> ModelDescriptor {
    let fields = vec![
        field("_id", FieldType::Id),
        field("email", FieldType::Str),
        field("name", FieldType::Str),
    ];
    ModelDescriptor::new(attrs(), fields, vec![index("email", "by_email")]).unwrap()
}

fn set_doc(entries: Vec<(&str, Value)>) -> Document {
    let mut inner = Document::new();
    for (k, v) in entries {
        inner.insert(s(k), v);
    }
    let mut d = Document::new();
    d.insert(s("$set"), Value::Doc(inner));
    d
}

#[test]
fn update_with_one_field_sets_only_it() {
    let m = user_model();
    let mut u = UpdateValue::new(&m);
    assert!(u.set("name", Value::Str(s("X"))));
    assert_eq!(u.as_update(), set_doc(vec![("name", Value::Str(s("X")))]));
}

#[test]
fn update_with_nothing_set_is_empty_set() {
    let m = user_model();
    let u = UpdateValue::new(&m);
    assert_eq!(u.as_update(), set_doc(vec![]));
}

#[test]
fn update_keeps_declaration_order() {
    let m = user_model();
    let mut u = UpdateValue::new(&m);
    u.set("name", Value::Str(s("N")));
    u.set("email", Value::Str(s("e@x")));
    assert_eq!(
        u.as_update(),
        set_doc(vec![("email", Value::Str(s("e@x"))), ("name", Value::Str(s("N")))])
    );
}

#[test]
fn update_cannot_set_identity_or_unknown_fields() {
    let m = user_model();
    let mut u = UpdateValue::new(&m);
    assert!(!u.set("_id", Value::Int32(1)));
    assert!(!u.set("age", Value::Int32(1)));
    assert_eq!(u.as_update(), set_doc(vec![]));
}

#[test]
fn update_operation_pairs_filter_and_update() {
    let m = user_model();
    let mut u = UpdateValue::new(&m);
    u.set("name", Value::Str(s("X")));
    let email = field("email", FieldType::Str);
    let op = Filter::new(email.eq(Value::Str(s("a@x")))).update_one(&u);
    assert_eq!(op.update, set_doc(vec![("name", Value::Str(s("X")))]));
    assert_eq!(op.filter.len(), 1);
    let many = Filter::new(email.eq(Value::Str(s("a@x")))).update_many(&u);
    assert_eq!(many.update, set_doc(vec![("name", Value::Str(s("X")))]));
}

#[test]
fn attrs_need_both_names() {
    assert_eq!(ItemAttrs::new(s(""), s("db1")), Err(ModelError::MissingName));
    assert_eq!(ItemAttrs::new(s("users"), s("")), Err(ModelError::MissingDatabase));
    assert_eq!(ItemAttrs::new(s("users"), s("db1")), Ok(ItemAttrs { name: s("users"), db_name: s("db1") }));
}

#[test]
fn model_needs_identity_field() {
    let r = ModelDescriptor::new(attrs(), vec![field("email", FieldType::Str)], vec![]);
    assert_eq!(r.unwrap_err(), ModelError::NoIdentityField);
}

#[test]
fn model_rejects_duplicate_field() {
    let fields = vec![field("_id", FieldType::Id), field("a", FieldType::Any), field("a", FieldType::Int)];
    let r = ModelDescriptor::new(attrs(), fields, vec![]);
    assert_eq!(r.unwrap_err(), ModelError::DuplicateField(s("a")));
}

#[test]
fn model_rejects_duplicate_index_name() {
    let fields = vec![field("_id", FieldType::Id), field("a", FieldType::Any)];
    let r = ModelDescriptor::new(attrs(), fields, vec![index("a", "i"), index("a", "i")]);
    assert_eq!(r.unwrap_err(), ModelError::DuplicateIndex(s("i")));
}

#[test]
fn model_rejects_index_on_unknown_field() {
    let fields = vec![field("_id", FieldType::Id)];
    let r = ModelDescriptor::new(attrs(), fields, vec![index("zip", "i")]);
    assert_eq!(r.unwrap_err(), ModelError::UnknownIndexField(s("zip")));
}

#[test]
fn model_keeps_its_metadata() {
    let m = user_model();
    assert_eq!(m.attrs_ref().name, "users");
    assert_eq!(m.field_list().len(), 3);
    assert_eq!(m.index_list()[0].name, "by_email");
}
