use mangga::field::{Arity, FieldDescriptor, FieldType, JoinInfo};
use mangga::filter::Filter;
use mangga::query::{into_sort, FindMany, FindOne};
use mangga::value::{Document, Value};

fn s(x: &str) -> String {
    x.to_string()
}

fn one(k: &str, v: Value) -> Value {
    let mut d = Document::new();
    d.insert(s(k), v);
    Value::Doc(d)
}

fn name() -> FieldDescriptor {
    FieldDescriptor::new(s("name"), FieldType::Str, s("books"))
}

fn user_id() -> FieldDescriptor {
    let info = JoinInfo { target_collection: s("users"), target_field: s("_id"), arity: Arity::One };
    FieldDescriptor::new(s("user_id"), FieldType::Id, s("books")).with_join(info)
}

fn filter_value() -> Value {
    name().eq(Value::Str(s("X"))).build()
}

fn filter_doc() -> Document {
    Filter::new(name().eq(Value::Str(s("X")))).document()
}

#[test]
fn find_many_pipeline_stage_order() {
    let q = Filter::new(name().eq(Value::Str(s("X"))))
        .find()
        .join(&user_id())
        .sort(&vec![name().asc()])
        .skip(2)
        .limit(10);
    let stages = q.pipeline();
    assert_eq!(stages.len(), 5);
    assert_eq!(stages[0], one("$match", filter_value()));
    assert_eq!(stages[1], user_id().as_join().unwrap().lookup());
    assert_eq!(stages[2], one("$skip", Value::Int64(2)));
    assert_eq!(stages[3], one("$sort", one("name", Value::Int32(1))));
    assert_eq!(stages[4], one("$limit", Value::Int64(10)));
}

#[test]
fn find_one_pipeline_has_no_limit() {
    let q = FindOne::new(filter_doc()).join(&user_id()).skip(1).sort(&vec![name().desc()]);
    let stages = q.pipeline();
    assert_eq!(stages.len(), 4);
    assert_eq!(stages[2], one("$skip", Value::Int64(1)));
    assert_eq!(stages[3], one("$sort", one("name", Value::Int32(-1))));
}

#[test]
fn pipeline_without_options_is_match_and_lookups() {
    let stages = FindMany::new(filter_doc()).join(&user_id()).pipeline();
    assert_eq!(stages.len(), 2);
    assert_eq!(stages[0], one("$match", filter_value()));
}

#[test]
fn sort_document_merges_keys_in_order() {
    let title = FieldDescriptor::new(s("title"), FieldType::Str, s("books"));
    let d = into_sort(&vec![name().asc(), title.desc(), name().desc()]);
    let mut expected = Document::new();
    expected.insert(s("name"), Value::Int32(-1));
    expected.insert(s("title"), Value::Int32(-1));
    assert_eq!(d, expected);
    assert_eq!(into_sort(&vec![]).len(), 0);
}

#[test]
fn filter_operations_carry_filter_document() {
    assert_eq!(Value::Doc(Filter::new(name().eq(Value::Str(s("X")))).count().filter), filter_value());
    assert_eq!(Value::Doc(Filter::new(name().eq(Value::Str(s("X")))).delete_one().filter), filter_value());
    assert_eq!(Value::Doc(Filter::new(name().eq(Value::Str(s("X")))).delete_many().filter), filter_value());
    assert_eq!(Value::Doc(Filter::new(name().eq(Value::Str(s("X")))).find_one().filter), filter_value());
}
