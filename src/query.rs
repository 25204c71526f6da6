use vstd::prelude::*;

use crate::field::FieldDescriptor;
use crate::filter::Filter;
use crate::join::{is_join_of, lookup_stages, JoinSpec};
use crate::update::UpdateValue;
use crate::value::{doc1, doc_insert, lemma_vals_of, vals_of, Document, Val, Value};

verus! {

broadcast use vstd::seq_lib::group_seq_properties;

/// One sort key: a field and its direction, 1 ascending or -1 descending.
#[derive(Debug, PartialEq, Eq)]
pub struct Sort {
    pub field: String,
    pub order: i32,
}

impl FieldDescriptor {
    /// Sorts ascending on this field.
    pub fn asc(&self) -> (r: Sort)
        ensures
            r.field@ == self.name@,
            r.order == 1,
    {
        Sort { field: self.name.clone(), order: 1 }
    }

    /// Sorts descending on this field.
    pub fn desc(&self) -> (r: Sort)
        ensures
            r.field@ == self.name@,
            r.order == -1,
    {
        Sort { field: self.name.clone(), order: -1 }
    }
}

/// The sort document of a list of keys: each key set in turn, so a repeated
/// field keeps its first place and its last direction.
pub open spec fn sort_entries(s: Seq<Sort>) -> Seq<(Seq<char>, Val)>
    decreases s.len(),
{
    if s.len() == 0 {
        Seq::empty()
    } else {
        doc_insert(sort_entries(s.drop_last()), s.last().field@, Val::Int32(s.last().order))
    }
}

/// The sort document `{field: direction, ...}` of a list of keys.
pub fn into_sort(sorts: &Vec<Sort>) -> (r: Document)
    ensures
        r@ == sort_entries(sorts@),
{
    let mut d = Document::new();
    let mut i: usize = 0;
    while i < sorts.len()
        invariant
            i <= sorts.len(),
            d@ == sort_entries(sorts@.subrange(0, i as int)),
        decreases sorts.len() - i,
    {
        assert(sorts@.subrange(0, i + 1).drop_last() == sorts@.subrange(0, i as int));
        d.insert(sorts[i].field.clone(), Value::Int32(sorts[i].order));
        i += 1;
    }
    assert(sorts@.subrange(0, sorts@.len() as int) == sorts@);
    d
}

pub open spec fn opt_doc(o: Option<Document>) -> Option<Seq<(Seq<char>, Val)>> {
    match o {
        Some(d) => Some(d@),
        None => None,
    }
}

/// The option stages of a pipeline, always in this order: skip, then sort,
/// then limit, each only when given.
pub open spec fn option_stages(
    skip: Option<u64>,
    sort: Option<Seq<(Seq<char>, Val)>>,
    limit: Option<i64>,
) -> Seq<Val> {
    (match skip {
        Some(k) => seq![doc1("$skip"@, Val::Int64(k as i64))],
        None => Seq::empty(),
    }) + (match sort {
        Some(s) => seq![doc1("$sort"@, Val::Doc(s))],
        None => Seq::empty(),
    }) + (match limit {
        Some(l) => seq![doc1("$limit"@, Val::Int64(l))],
        None => Seq::empty(),
    })
}

/// A whole pipeline: the match on the filter, the lookups in join order,
/// then the option stages.
pub open spec fn pipeline_model(
    filter: Seq<(Seq<char>, Val)>,
    joins: Seq<JoinSpec>,
    skip: Option<u64>,
    sort: Option<Seq<(Seq<char>, Val)>>,
    limit: Option<i64>,
) -> Seq<Val> {
    seq![doc1("$match"@, Val::Doc(filter))] + lookup_stages(joins) + option_stages(skip, sort, limit)
}

fn push_stage(stages: &mut Vec<Value>, key: &str, v: Value)
    ensures
        vals_of(final(stages)@) == vals_of(old(stages)@).push(doc1(key@, v@)),
{
    let mut d = Document::new();
    d.insert(key.to_owned(), v);
    assert(d@ =~= seq![(key@, v@)]);
    let ghost before = stages@;
    let stage = Value::Doc(d);
    assert(stage@ == doc1(key@, v@));
    stages.push(stage);
    assert(stages@.subrange(0, stages@.len() - 1) == before);
    assert(vals_of(stages@) == vals_of(stages@.subrange(0, stages@.len() - 1)).push(stages@[stages@.len() - 1]@));
}

/// Builds the stages of a query with the given joins and options.
fn build_pipeline(
    filter: Document,
    joins: &Vec<JoinSpec>,
    skip: Option<u64>,
    sort: Option<Document>,
    limit: Option<i64>,
) -> (r: Vec<Value>)
    ensures
        vals_of(r@) == pipeline_model(filter@, joins@, skip, opt_doc(sort), limit),
{
    let ghost f = filter@;
    let ghost s = opt_doc(sort);
    let mut stages: Vec<Value> = Vec::new();
    proof {
        lemma_vals_of(stages@);
    }
    push_stage(&mut stages, "$match", Value::Doc(filter));
    assert(vals_of(stages@) =~= seq![doc1("$match"@, Val::Doc(f))]);
    let mut i: usize = 0;
    while i < joins.len()
        invariant
            i <= joins.len(),
            vals_of(stages@) == seq![doc1("$match"@, Val::Doc(f))] + lookup_stages(joins@.subrange(0, i as int)),
        decreases joins.len() - i,
    {
        let stage = joins[i].lookup();
        let ghost prev = stages@;
        stages.push(stage);
        assert(stages@.subrange(0, stages@.len() - 1) == prev);
        assert(joins@.subrange(0, i + 1) == joins@.subrange(0, i as int).push(joins@[i as int]));
        assert(lookup_stages(joins@.subrange(0, i + 1)) == lookup_stages(joins@.subrange(0, i as int)).push(
            stage@,
        ));
        i += 1;
    }
    assert(joins@.subrange(0, joins@.len() as int) == joins@);
    let ghost base = vals_of(stages@);
    match skip {
        Some(k) => push_stage(&mut stages, "$skip", Value::Int64(k as i64)),
        None => {},
    }
    match sort {
        Some(d) => push_stage(&mut stages, "$sort", Value::Doc(d)),
        None => {},
    }
    match limit {
        Some(l) => push_stage(&mut stages, "$limit", Value::Int64(l)),
        None => {},
    }
    assert(vals_of(stages@) =~= base + option_stages(skip, s, limit));
    stages
}

/// A query for the first matching document.
#[derive(Debug)]
pub struct FindOne {
    pub filter: Document,
    pub skip: Option<u64>,
    pub sort: Option<Document>,
    pub joins: Vec<JoinSpec>,
}

/// A query for every matching document.
#[derive(Debug)]
pub struct FindMany {
    pub filter: Document,
    pub skip: Option<u64>,
    pub sort: Option<Document>,
    pub limit: Option<i64>,
    pub joins: Vec<JoinSpec>,
}

impl FindOne {
    pub fn new(filter: Document) -> (r: FindOne)
        ensures
            r.filter == filter,
            r.skip is None,
            r.sort is None,
            r.joins@.len() == 0,
    {
        FindOne { filter, skip: None, sort: None, joins: Vec::new() }
    }

    pub fn skip(self, n: u64) -> (r: FindOne)
        ensures
            r == (FindOne { skip: Some(n), ..self }),
    {
        FindOne { skip: Some(n), ..self }
    }

    pub fn sort(self, sorts: &Vec<Sort>) -> (r: FindOne)
        ensures
            r.filter == self.filter,
            r.skip == self.skip,
            r.joins == self.joins,
            r.sort matches Some(d) && d@ == sort_entries(sorts@),
    {
        FindOne { sort: Some(into_sort(sorts)), ..self }
    }

    /// Adds the join of a joinable field after those already there.
    pub fn join(self, field: &FieldDescriptor) -> (r: FindOne)
        requires
            field.join is Some,
        ensures
            r.filter == self.filter,
            r.skip == self.skip,
            r.sort == self.sort,
            r.joins@.len() == self.joins@.len() + 1,
            r.joins@.subrange(0, self.joins@.len() as int) == self.joins@,
            is_join_of(r.joins@.last(), *field),
    {
        let mut joins = self.joins;
        match field.as_join() {
            Some(j) => joins.push(j),
            None => {},
        }
        FindOne { joins, ..self }
    }

    /// The aggregation pipeline of this query: match, lookups, skip, sort.
    /// Only the first document it returns is kept, so no limit stage.
    pub fn pipeline(self) -> (r: Vec<Value>)
        ensures
            vals_of(r@) == pipeline_model(self.filter@, self.joins@, self.skip, opt_doc(self.sort), None),
    {
        build_pipeline(self.filter, &self.joins, self.skip, self.sort, None)
    }
}

impl FindMany {
    pub fn new(filter: Document) -> (r: FindMany)
        ensures
            r.filter == filter,
            r.skip is None,
            r.sort is None,
            r.limit is None,
            r.joins@.len() == 0,
    {
        FindMany { filter, skip: None, sort: None, limit: None, joins: Vec::new() }
    }

    pub fn skip(self, n: u64) -> (r: FindMany)
        ensures
            r == (FindMany { skip: Some(n), ..self }),
    {
        FindMany { skip: Some(n), ..self }
    }

    pub fn limit(self, n: i64) -> (r: FindMany)
        ensures
            r == (FindMany { limit: Some(n), ..self }),
    {
        FindMany { limit: Some(n), ..self }
    }

    pub fn sort(self, sorts: &Vec<Sort>) -> (r: FindMany)
        ensures
            r.filter == self.filter,
            r.skip == self.skip,
            r.limit == self.limit,
            r.joins == self.joins,
            r.sort matches Some(d) && d@ == sort_entries(sorts@),
    {
        FindMany { sort: Some(into_sort(sorts)), ..self }
    }

    /// Adds the join of a joinable field after those already there.
    pub fn join(self, field: &FieldDescriptor) -> (r: FindMany)
        requires
            field.join is Some,
        ensures
            r.filter == self.filter,
            r.skip == self.skip,
            r.sort == self.sort,
            r.limit == self.limit,
            r.joins@.len() == self.joins@.len() + 1,
            r.joins@.subrange(0, self.joins@.len() as int) == self.joins@,
            is_join_of(r.joins@.last(), *field),
    {
        let mut joins = self.joins;
        match field.as_join() {
            Some(j) => joins.push(j),
            None => {},
        }
        FindMany { joins, ..self }
    }

    /// The aggregation pipeline of this query: match, lookups, skip, sort, limit.
    pub fn pipeline(self) -> (r: Vec<Value>)
        ensures
            vals_of(r@) == pipeline_model(self.filter@, self.joins@, self.skip, opt_doc(self.sort), self.limit),
    {
        build_pipeline(self.filter, &self.joins, self.skip, self.sort, self.limit)
    }
}

/// A count of matching documents.
#[derive(Debug)]
pub struct Count {
    pub filter: Document,
}

/// A deletion of the first matching document.
#[derive(Debug)]
pub struct DeleteOne {
    pub filter: Document,
}

/// A deletion of every matching document.
#[derive(Debug)]
pub struct DeleteMany {
    pub filter: Document,
}

/// An update of the first matching document.
#[derive(Debug)]
pub struct UpdateOne {
    pub filter: Document,
    pub update: Document,
}

/// An update of every matching document.
#[derive(Debug)]
pub struct UpdateMany {
    pub filter: Document,
    pub update: Document,
}

/// The operations a filter leads to, each over the filter document.
impl Filter {
    pub fn find_one(self) -> (r: FindOne)
        ensures
            r.filter@ == self.document_model(),
            r.skip is None,
            r.sort is None,
            r.joins@.len() == 0,
    {
        FindOne::new(self.document())
    }

    pub fn find(self) -> (r: FindMany)
        ensures
            r.filter@ == self.document_model(),
            r.skip is None,
            r.sort is None,
            r.limit is None,
            r.joins@.len() == 0,
    {
        FindMany::new(self.document())
    }

    pub fn count(self) -> (r: Count)
        ensures
            r.filter@ == self.document_model(),
    {
        Count { filter: self.document() }
    }

    pub fn delete_one(self) -> (r: DeleteOne)
        ensures
            r.filter@ == self.document_model(),
    {
        DeleteOne { filter: self.document() }
    }

    pub fn delete_many(self) -> (r: DeleteMany)
        ensures
            r.filter@ == self.document_model(),
    {
        DeleteMany { filter: self.document() }
    }

    pub fn update_one(self, update: &UpdateValue) -> (r: UpdateOne)
        ensures
            r.filter@ == self.document_model(),
            r.update@ == seq![("$set"@, Val::Doc(crate::update::set_entries(update@)))],
    {
        UpdateOne { filter: self.document(), update: update.as_update() }
    }

    pub fn update_many(self, update: &UpdateValue) -> (r: UpdateMany)
        ensures
            r.filter@ == self.document_model(),
            r.update@ == seq![("$set"@, Val::Doc(crate::update::set_entries(update@)))],
    {
        UpdateMany { filter: self.document(), update: update.as_update() }
    }
}

} // verus!
