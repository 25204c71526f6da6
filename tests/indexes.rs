use mangga::error::Error;
use mangga::index::{live_index_names, plan, FieldIndex, IndexSpec};
use mangga::reconcile::{Action, Event, Phase, Reconciler};
use mangga::value::{Document, Value};

fn s(x: &str) -> String {
    x.to_string()
}

fn spec(name: &str) -> IndexSpec {
    IndexSpec { field: s("f"), name: s(name), order: 1, unique: false, ttl: None }
}

fn names(v: &[&str]) -> Vec<String> {
    v.iter().map(|x| s(x)).collect()
}

#[test]
fn plan_drops_undeclared_and_creates_missing() {
    let p = plan(&names(&["a", "b", "c"]), &vec![spec("b"), spec("c"), spec("d")]);
    assert_eq!(p.to_drop, names(&["a"]));
    assert_eq!(p.to_create, vec![spec("d")]);
}

#[test]
fn plan_is_empty_when_live_matches_declared() {
    let p = plan(&names(&["c", "a", "b"]), &vec![spec("a"), spec("b"), spec("c")]);
    assert!(p.to_drop.is_empty());
    assert!(p.to_create.is_empty());
}

#[test]
fn plan_on_empty_collection_creates_everything() {
    let p = plan(&vec![], &vec![spec("x"), spec("y")]);
    assert!(p.to_drop.is_empty());
    assert_eq!(p.to_create, vec![spec("x"), spec("y")]);
}

#[test]
fn plan_with_nothing_declared_drops_everything() {
    let p = plan(&names(&["x", "y"]), &vec![]);
    assert_eq!(p.to_drop, names(&["x", "y"]));
    assert!(p.to_create.is_empty());
}

#[test]
fn identity_index_is_not_live() {
    assert_eq!(live_index_names(names(&["_id_", "a", "b"])), names(&["a", "b"]));
}

#[test]
fn unnamed_index_gets_derived_name() {
    let fi = FieldIndex { name: None, unique: true, score: 1, exp: None };
    let spec = fi.gen("email");
    assert_eq!(spec.name, "mangga_index_email_1_unique_no-exp");
    assert_eq!(spec.field, "email");
    assert_eq!(spec.order, 1);
    assert!(spec.unique);
    assert_eq!(spec.ttl, None);
}

#[test]
fn derived_name_of_descending_expiring_index() {
    let fi = FieldIndex { name: None, unique: false, score: -1, exp: Some(3600) };
    let spec = fi.gen("created_at");
    assert_eq!(spec.name, "mangga_index_created_at_-1_no-unique_exp");
    assert_eq!(spec.order, -1);
    assert_eq!(spec.ttl, Some(3600));
}

#[test]
fn derived_name_of_multi_digit_score_normalises_order() {
    let fi = FieldIndex { name: None, unique: false, score: 120, exp: None };
    let spec = fi.gen("n");
    assert_eq!(spec.name, "mangga_index_n_120_no-unique_no-exp");
    assert_eq!(spec.order, 1);
}

#[test]
fn explicit_index_name_is_kept() {
    let fi = FieldIndex { name: Some(s("by_email")), unique: true, score: 1, exp: None };
    assert_eq!(fi.gen("email").name, "by_email");
}

#[test]
fn index_keys_document() {
    let mut expected = Document::new();
    expected.insert(s("email"), Value::Int32(-1));
    let spec = IndexSpec { field: s("email"), name: s("i"), order: -1, unique: true, ttl: None };
    assert_eq!(spec.keys(), expected);
}

fn drive(r: &mut Reconciler, e: Event) -> Action {
    r.step(e)
}

#[test]
fn reconcile_creates_collection_then_converges() {
    let mut r = Reconciler::new(s("users"), vec![spec("b"), spec("d")]);
    assert!(matches!(r.start(), Action::ListCollections));
    match drive(&mut r, Event::Collections(names(&["books"]))) {
        Action::CreateCollection(c) => assert_eq!(c, "users"),
        other => panic!("unexpected {:?}", other),
    }
    assert!(matches!(drive(&mut r, Event::CollectionCreated), Action::ListIndexes));
    match drive(&mut r, Event::Indexes(names(&["_id_", "a", "b", "c"]))) {
        Action::DropIndex(n) => assert_eq!(n, "a"),
        other => panic!("unexpected {:?}", other),
    }
    match drive(&mut r, Event::Dropped) {
        Action::DropIndex(n) => assert_eq!(n, "c"),
        other => panic!("unexpected {:?}", other),
    }
    match drive(&mut r, Event::Dropped) {
        Action::CreateIndexes(v) => assert_eq!(v, vec![spec("d")]),
        other => panic!("unexpected {:?}", other),
    }
    assert!(matches!(drive(&mut r, Event::Created), Action::Finish(Ok(()))));
    assert_eq!(r.phase_now(), Phase::Done);
}

#[test]
fn reconcile_rerun_issues_no_drops_or_creates() {
    let mut r = Reconciler::new(s("users"), vec![spec("a"), spec("b")]);
    r.start();
    assert!(matches!(drive(&mut r, Event::Collections(names(&["users"]))), Action::ListIndexes));
    assert!(matches!(drive(&mut r, Event::Indexes(names(&["_id_", "b", "a"]))), Action::Finish(Ok(()))));
}

#[test]
fn reconcile_stops_on_failure() {
    let mut r = Reconciler::new(s("users"), vec![spec("a")]);
    r.start();
    let failure = Error::Database { code: Some(13), message: s("unauthorized") };
    match drive(&mut r, Event::Failed(failure)) {
        Action::Finish(Err(Error::Database { code, .. })) => assert_eq!(code, Some(13)),
        other => panic!("unexpected {:?}", other),
    }
    assert_eq!(r.phase_now(), Phase::Done);
}

#[test]
fn bare_index_attribute_defaults() {
    let spec = FieldIndex::new().gen("user_id");
    assert_eq!(spec.name, "mangga_index_user_id_1_no-unique_no-exp");
    assert_eq!(spec.order, 1);
    assert!(!spec.unique);
}
