use vstd::prelude::*;

use crate::field::{type_accepts, FieldDescriptor};
use crate::value::{doc1, lemma_vals_of, vals_of, Document, Val, Value};

verus! {

/// The comparison operators a field filter can use.
#[derive(Clone, Copy, Debug, PartialEq, Eq)]
pub enum Operator {
    Eq,
    Lt,
    Gt,
    Lte,
    Gte,
    Ne,
    In,
    Nin,
}

/// The wire token of an operator.
pub open spec fn op_token(op: Operator) -> Seq<char> {
    match op {
        Operator::Eq => "$eq"@,
        Operator::Lt => "$lt"@,
        Operator::Gt => "$gt"@,
        Operator::Lte => "$lte"@,
        Operator::Gte => "$gte"@,
        Operator::Ne => "$ne"@,
        Operator::In => "$in"@,
        Operator::Nin => "$nin"@,
    }
}

impl Operator {
    /// The operator as the database spells it.
    pub fn as_str(&self) -> (r: &'static str)
        ensures
            r@ == op_token(*self),
    {
        match self {
            Operator::Eq => "$eq",
            Operator::Lt => "$lt",
            Operator::Gt => "$gt",
            Operator::Lte => "$lte",
            Operator::Gte => "$gte",
            Operator::Ne => "$ne",
            Operator::In => "$in",
            Operator::Nin => "$nin",
        }
    }
}

/// The six tokens that compare one field with a value.
pub open spec fn is_comparison_token(op: Seq<char>) -> bool {
    op == "$eq"@ || op == "$ne"@ || op == "$gt"@ || op == "$gte"@ || op == "$lt"@ || op == "$lte"@
}

/// A filter expression as the algebra sees it: logical nodes hold their
/// children already built.
pub enum ExprModel {
    Literal(Val),
    FieldRef(Seq<char>),
    Comparison(Seq<char>, Operator, Val),
    Raw(Seq<char>, Seq<char>, Val),
    And(Seq<Val>),
    Or(Seq<Val>),
}

/// The wire form of an expression.
pub open spec fn build_model(e: ExprModel) -> Val {
    match e {
        ExprModel::Literal(v) => v,
        ExprModel::FieldRef(n) => Val::Str(n),
        ExprModel::Comparison(f, op, v) => doc1(f, doc1(op_token(op), v)),
        ExprModel::Raw(f, op, v) => if is_comparison_token(op) {
            doc1(f, doc1(op, v))
        } else {
            doc1(op, doc1(f, v))
        },
        ExprModel::And(cs) => doc1("$and"@, Val::Array(cs)),
        ExprModel::Or(cs) => doc1("$or"@, Val::Array(cs)),
    }
}

/// `a and b`: an `and` node takes `b` as one more child; anything else,
/// an `or` node included, becomes the first of two children.
pub open spec fn and_model(a: ExprModel, b: ExprModel) -> ExprModel {
    match a {
        ExprModel::And(cs) => ExprModel::And(cs.push(build_model(b))),
        _ => ExprModel::And(seq![build_model(a), build_model(b)]),
    }
}

/// `a or b`, the mirror of `and_model`.
pub open spec fn or_model(a: ExprModel, b: ExprModel) -> ExprModel {
    match a {
        ExprModel::Or(cs) => ExprModel::Or(cs.push(build_model(b))),
        _ => ExprModel::Or(seq![build_model(a), build_model(b)]),
    }
}

/// A comparison of one field with a value.
#[derive(Debug, PartialEq)]
pub struct Query {
    pub field: String,
    pub op: Operator,
    pub value: Value,
}

impl Query {
    pub fn new(field: String, op: Operator, value: Value) -> (r: Query)
        ensures
            r.field == field,
            r.op == op,
            r.value == value,
    {
        Query { field, op, value }
    }

    /// `{field: {op: value}}`.
    pub fn build(self) -> (r: Value)
        ensures
            r@ == doc1(self.field@, doc1(op_token(self.op), self.value@)),
    {
        let mut inner = Document::new();
        inner.insert(self.op.as_str().to_owned(), self.value);
        let mut outer = Document::new();
        outer.insert(self.field, Value::Doc(inner));
        proof {
            assert(outer@ =~= seq![(self.field@, doc1(op_token(self.op), self.value@))]);
        }
        Value::Doc(outer)
    }
}

/// A filter on an operator the algebra does not model.
#[derive(Debug, PartialEq)]
pub struct RawFilter {
    pub field: String,
    pub op: String,
    pub value: Value,
}

fn is_token(op: &String, token: &str) -> (r: bool)
    ensures
        r == (op@ == token@),
{
    *op == token.to_owned()
}

impl RawFilter {
    pub fn new(field: String, op: String, value: Value) -> (r: RawFilter)
        ensures
            r.field == field,
            r.op == op,
            r.value == value,
    {
        RawFilter { field, op, value }
    }

    /// `{field: {op: value}}` for the six comparison tokens, `{op: {field: value}}`
    /// for any other operator.
    pub fn build(self) -> (r: Value)
        ensures
            r@ == build_model(ExprModel::Raw(self.field@, self.op@, self.value@)),
    {
        let comparison = is_token(&self.op, "$eq") || is_token(&self.op, "$ne") || is_token(&self.op, "$gt")
            || is_token(&self.op, "$gte") || is_token(&self.op, "$lt") || is_token(&self.op, "$lte");
        let (outer_key, inner_key) = if comparison {
            (self.field, self.op)
        } else {
            (self.op, self.field)
        };
        let mut inner = Document::new();
        inner.insert(inner_key, self.value);
        let mut outer = Document::new();
        outer.insert(outer_key, Value::Doc(inner));
        proof {
            assert(outer@ =~= seq![(outer_key@, doc1(inner_key@, self.value@))]);
        }
        Value::Doc(outer)
    }
}

/// A filter expression.
#[derive(Debug, PartialEq)]
pub enum Expr {
    Literal(Value),
    FieldRef(String),
    Comparison(Query),
    Raw(RawFilter),
    And(Vec<Value>),
    Or(Vec<Value>),
}

impl Expr {
    pub open spec fn view(&self) -> ExprModel {
        match self {
            Expr::Literal(v) => ExprModel::Literal(v@),
            Expr::FieldRef(n) => ExprModel::FieldRef(n@),
            Expr::Comparison(q) => ExprModel::Comparison(q.field@, q.op, q.value@),
            Expr::Raw(r) => ExprModel::Raw(r.field@, r.op@, r.value@),
            Expr::And(cs) => ExprModel::And(vals_of(cs@)),
            Expr::Or(cs) => ExprModel::Or(vals_of(cs@)),
        }
    }

    /// The expression in wire form.
    pub fn build(self) -> (r: Value)
        ensures
            r@ == build_model(self@),
    {
        match self {
            Expr::Literal(v) => v,
            Expr::FieldRef(n) => Value::Str(n),
            Expr::Comparison(q) => q.build(),
            Expr::Raw(r) => r.build(),
            Expr::And(cs) => logical("$and", cs),
            Expr::Or(cs) => logical("$or", cs),
        }
    }

    /// `self and other`; an `and` node grows by one child, nothing else is
    /// flattened.
    pub fn and(self, other: Expr) -> (r: Expr)
        ensures
            r@ == and_model(self@, other@),
    {
        match self {
            Expr::And(cs) => Expr::And(push_value(cs, other.build())),
            _ => Expr::And(pair(self.build(), other.build())),
        }
    }

    /// `self or other`; an `or` node grows by one child, nothing else is
    /// flattened.
    pub fn or(self, other: Expr) -> (r: Expr)
        ensures
            r@ == or_model(self@, other@),
    {
        match self {
            Expr::Or(cs) => Expr::Or(push_value(cs, other.build())),
            _ => Expr::Or(pair(self.build(), other.build())),
        }
    }
}

fn push_value(cs: Vec<Value>, v: Value) -> (r: Vec<Value>)
    ensures
        vals_of(r@) == vals_of(cs@).push(v@),
{
    let mut cs = cs;
    let ghost before = cs@;
    cs.push(v);
    proof {
        assert(cs@.subrange(0, cs@.len() - 1) == before);
    }
    cs
}

fn pair(a: Value, b: Value) -> (r: Vec<Value>)
    ensures
        vals_of(r@) == seq![a@, b@],
{
    let mut v: Vec<Value> = Vec::new();
    v.push(a);
    v.push(b);
    proof {
        lemma_vals_of(v@);
        assert(vals_of(v@) =~= seq![a@, b@]);
    }
    v
}

/// `{op: [children]}`.
fn logical(op: &str, cs: Vec<Value>) -> (r: Value)
    ensures
        r@ == doc1(op@, Val::Array(vals_of(cs@))),
{
    let mut d = Document::new();
    d.insert(op.to_owned(), Value::Array(cs));
    proof {
        assert(d@ =~= seq![(op@, Val::Array(vals_of(cs@)))]);
    }
    Value::Doc(d)
}

/// A filter over a model's documents.
#[derive(Debug, PartialEq)]
pub struct Filter {
    pub expr: Expr,
}

impl Filter {
    pub fn new(expr: Expr) -> (r: Filter)
        ensures
            r.expr == expr,
    {
        Filter { expr }
    }

    /// The filter document: the built expression when it is a document, the
    /// empty document (matching everything) otherwise.
    pub open spec fn document_model(&self) -> Seq<(Seq<char>, Val)> {
        match build_model(self.expr@) {
            Val::Doc(es) => es,
            _ => Seq::empty(),
        }
    }

    pub fn document(self) -> (r: Document)
        ensures
            r@ == self.document_model(),
    {
        match self.expr.build() {
            Value::Doc(d) => d,
            _ => Document::new(),
        }
    }
}

/// The raw escape: `{name: {op: value}}` for the six comparison tokens,
/// `{op: {name: value}}` for every other operator.
pub fn raw_filter(name: String, op: String, value: Value) -> (r: Filter)
    ensures
        r.expr@ == ExprModel::Raw(name@, op@, value@),
{
    Filter::new(Expr::Raw(RawFilter::new(name, op, value)))
}

/// The comparison constructors of a field.
impl FieldDescriptor {
    fn compare(&self, op: Operator, value: Value) -> (r: Expr)
        ensures
            r@ == ExprModel::Comparison(self.name@, op, value@),
    {
        Expr::Comparison(Query::new(self.name.clone(), op, value))
    }

    pub fn eq(&self, value: Value) -> (r: Expr)
        requires
            type_accepts(self.ty, value@),
        ensures
            r@ == ExprModel::Comparison(self.name@, Operator::Eq, value@),
    {
        self.compare(Operator::Eq, value)
    }

    pub fn ne(&self, value: Value) -> (r: Expr)
        requires
            type_accepts(self.ty, value@),
        ensures
            r@ == ExprModel::Comparison(self.name@, Operator::Ne, value@),
    {
        self.compare(Operator::Ne, value)
    }

    pub fn gt(&self, value: Value) -> (r: Expr)
        requires
            type_accepts(self.ty, value@),
        ensures
            r@ == ExprModel::Comparison(self.name@, Operator::Gt, value@),
    {
        self.compare(Operator::Gt, value)
    }

    pub fn gte(&self, value: Value) -> (r: Expr)
        requires
            type_accepts(self.ty, value@),
        ensures
            r@ == ExprModel::Comparison(self.name@, Operator::Gte, value@),
    {
        self.compare(Operator::Gte, value)
    }

    pub fn lt(&self, value: Value) -> (r: Expr)
        requires
            type_accepts(self.ty, value@),
        ensures
            r@ == ExprModel::Comparison(self.name@, Operator::Lt, value@),
    {
        self.compare(Operator::Lt, value)
    }

    pub fn lte(&self, value: Value) -> (r: Expr)
        requires
            type_accepts(self.ty, value@),
        ensures
            r@ == ExprModel::Comparison(self.name@, Operator::Lte, value@),
    {
        self.compare(Operator::Lte, value)
    }

    /// `{name: {"$in": [values]}}`.
    pub fn is_in(&self, values: Vec<Value>) -> (r: Expr)
        requires
            forall|i: int| 0 <= i < values.len() ==> type_accepts(self.ty, #[trigger] values@[i]@),
        ensures
            r@ == ExprModel::Comparison(self.name@, Operator::In, Val::Array(vals_of(values@))),
    {
        self.compare(Operator::In, Value::Array(values))
    }

    /// `{name: {"$nin": [values]}}`.
    pub fn nin(&self, values: Vec<Value>) -> (r: Expr)
        requires
            forall|i: int| 0 <= i < values.len() ==> type_accepts(self.ty, #[trigger] values@[i]@),
        ensures
            r@ == ExprModel::Comparison(self.name@, Operator::Nin, Val::Array(vals_of(values@))),
    {
        self.compare(Operator::Nin, Value::Array(values))
    }
}

/// A comparison built from a field compiles to `{name: {token: value}}`, the
/// token being the operator's own.
pub proof fn lemma_comparison_wire_form(name: Seq<char>, op: Operator, v: Val)
    ensures
        build_model(ExprModel::Comparison(name, op, v)) == doc1(name, doc1(op_token(op), v)),
{
}

/// Chained `and`s give one flat node: `a.and(b).and(c)` is `{"$and": [a, b, c]}`
/// whenever `a` is not itself an `and` node.
pub proof fn lemma_and_chain_is_flat(a: ExprModel, b: ExprModel, c: ExprModel)
    requires
        !(a is And),
    ensures
        build_model(and_model(and_model(a, b), c)) == doc1(
            "$and"@,
            Val::Array(seq![build_model(a), build_model(b), build_model(c)]),
        ),
{
    assert(seq![build_model(a), build_model(b)].push(build_model(c)) =~= seq![
        build_model(a),
        build_model(b),
        build_model(c),
    ]);
}

/// No flattening across connectives: `a.and(b).or(c)` is
/// `{"$or": [{"$and": [a, b]}, c]}` whenever `a` is not itself an `and` node.
pub proof fn lemma_or_after_and_nests(a: ExprModel, b: ExprModel, c: ExprModel)
    requires
        !(a is And),
    ensures
        build_model(or_model(and_model(a, b), c)) == doc1(
            "$or"@,
            Val::Array(seq![doc1("$and"@, Val::Array(seq![build_model(a), build_model(b)])), build_model(c)]),
        ),
{
}

} // verus!
