use vstd::prelude::*;

use crate::error::Error;
use crate::field::{Arity, FieldDescriptor};
use crate::model::ModelDescriptor;
use crate::value::{doc_get, lemma_insert_fresh, lemma_vals_of, vals_of, Document, Val, Value};

verus! {

/// One lookup of a query: documents of `from` whose `foreign_field` equals
/// this document's `local_field`, placed under `alias`.
#[derive(Clone, Debug, PartialEq, Eq)]
pub struct JoinSpec {
    pub local_field: String,
    pub from: String,
    pub foreign_field: String,
    pub arity: Arity,
    pub alias: String,
}

/// The alias a field's join results are placed under.
pub open spec fn join_alias(name: Seq<char>) -> Seq<char> {
    name + "_join"@
}

/// The `$lookup` stage of a join.
pub open spec fn lookup_model(j: JoinSpec) -> Val {
    Val::Doc(
        seq![
            (
                "$lookup"@,
                Val::Doc(
                    seq![
                        ("from"@, Val::Str(j.from@)),
                        ("localField"@, Val::Str(j.local_field@)),
                        ("foreignField"@, Val::Str(j.foreign_field@)),
                        ("as"@, Val::Str(j.alias@)),
                    ],
                ),
            ),
        ],
    )
}

pub open spec fn lookup_stages(js: Seq<JoinSpec>) -> Seq<Val> {
    js.map_values(|j: JoinSpec| lookup_model(j))
}

/// What a returned document holds for a join, or `None` when the result is
/// missing: an array is taken whole for `Many` and by its first element for
/// `One`; a single document is wrapped in an array for `Many` and taken as is
/// for `One`; anything else is missing.
pub open spec fn decode_model(doc: Seq<(Seq<char>, Val)>, alias: Seq<char>, arity: Arity) -> Option<Val> {
    match doc_get(doc, alias) {
        Some(Val::Array(items)) => if arity == Arity::Many {
            Some(Val::Array(items))
        } else if items.len() == 0 {
            None
        } else {
            Some(items[0])
        },
        Some(Val::Doc(d)) => if arity == Arity::Many {
            Some(Val::Array(seq![Val::Doc(d)]))
        } else {
            Some(Val::Doc(d))
        },
        _ => None,
    }
}

/// Whether `j` is the join of field `f`: from the field to its target, under
/// the field's alias.
pub open spec fn is_join_of(j: JoinSpec, f: FieldDescriptor) -> bool {
    match f.join {
        None => false,
        Some(info) => {
            &&& j.local_field@ == f.name@
            &&& j.from@ == info.target_collection@
            &&& j.foreign_field@ == info.target_field@
            &&& j.arity == info.arity
            &&& j.alias@ == join_alias(f.name@)
        },
    }
}

impl FieldDescriptor {
    /// The join of a joinable field; `None` for a field that joins nowhere.
    pub fn as_join(&self) -> (r: Option<JoinSpec>)
        ensures
            match r {
                None => self.join is None,
                Some(j) => is_join_of(j, *self),
            },
    {
        match &self.join {
            None => None,
            Some(info) => {
                let alias = self.name.clone().concat("_join");
                Some(
                    JoinSpec {
                        local_field: self.name.clone(),
                        from: info.target_collection.clone(),
                        foreign_field: info.target_field.clone(),
                        arity: info.arity,
                        alias,
                    },
                )
            },
        }
    }
}

impl JoinSpec {
    /// `{"$lookup": {"from": .., "localField": .., "foreignField": .., "as": ..}}`.
    pub fn lookup(&self) -> (r: Value)
        ensures
            r@ == lookup_model(*self),
    {
        proof {
            reveal_strlit("from");
            reveal_strlit("localField");
            reveal_strlit("foreignField");
            reveal_strlit("as");
        }
        let mut inner = Document::new();
        inner.insert("from".to_owned(), Value::Str(self.from.clone()));
        assert(inner@ =~= seq![("from"@, Val::Str(self.from@))]);
        assert("from"@.len() == 4);
        assert("as"@.len() == 2);
        assert("localField"@.len() == 10);
        assert("foreignField"@.len() == 12);
        assert("from"@ != "localField"@ && "from"@ != "foreignField"@ && "from"@ != "as"@);
        assert("localField"@ != "foreignField"@ && "localField"@ != "as"@ && "foreignField"@ != "as"@);
        proof {
            lemma_insert_fresh(inner@, "localField"@, Val::Str(self.local_field@));
        }
        inner.insert("localField".to_owned(), Value::Str(self.local_field.clone()));
        assert(inner@ =~= seq![("from"@, Val::Str(self.from@)), ("localField"@, Val::Str(self.local_field@))]);
        proof {
            lemma_insert_fresh(inner@, "foreignField"@, Val::Str(self.foreign_field@));
        }
        inner.insert("foreignField".to_owned(), Value::Str(self.foreign_field.clone()));
        assert(inner@ =~= seq![
            ("from"@, Val::Str(self.from@)),
            ("localField"@, Val::Str(self.local_field@)),
            ("foreignField"@, Val::Str(self.foreign_field@)),
        ]);
        proof {
            lemma_insert_fresh(inner@, "as"@, Val::Str(self.alias@));
        }
        inner.insert("as".to_owned(), Value::Str(self.alias.clone()));
        assert(inner@ =~= seq![
            ("from"@, Val::Str(self.from@)),
            ("localField"@, Val::Str(self.local_field@)),
            ("foreignField"@, Val::Str(self.foreign_field@)),
            ("as"@, Val::Str(self.alias@)),
        ]);
        let mut outer = Document::new();
        outer.insert("$lookup".to_owned(), Value::Doc(inner));
        assert(outer@ =~= seq![("$lookup"@, Val::Doc(inner@))]);
        Value::Doc(outer)
    }
}

/// The positions of the fields that join somewhere, in declaration order.
pub open spec fn joinable_positions(fields: Seq<FieldDescriptor>) -> Seq<int>
    decreases fields.len(),
{
    if fields.len() == 0 {
        Seq::empty()
    } else {
        let rest = joinable_positions(fields.drop_last());
        if fields.last().join is Some {
            rest.push(fields.len() - 1)
        } else {
            rest
        }
    }
}

impl ModelDescriptor {
    /// The joins of every joinable field of the model, in declaration order,
    /// so that the same model always yields the same list.
    pub fn join_specs(&self) -> (r: Vec<JoinSpec>)
        ensures
            r.len() == joinable_positions(self.fields()).len(),
            forall|k: int|
                0 <= k < r.len() ==> is_join_of(
                    #[trigger] r@[k],
                    self.fields()[joinable_positions(self.fields())[k]],
                ),
    {
        let fields = self.field_list();
        let mut out: Vec<JoinSpec> = Vec::new();
        let mut i: usize = 0;
        while i < fields.len()
            invariant
                i <= fields.len(),
                fields@ == self.fields(),
                out.len() == joinable_positions(fields@.subrange(0, i as int)).len(),
                forall|k: int| 0 <= k < joinable_positions(fields@.subrange(0, i as int)).len()
                    ==> 0 <= #[trigger] joinable_positions(fields@.subrange(0, i as int))[k] < i,
                forall|k: int|
                    0 <= k < out.len() ==> is_join_of(
                        #[trigger] out@[k],
                        fields@[joinable_positions(fields@.subrange(0, i as int))[k]],
                    ),
            decreases fields.len() - i,
        {
            let ghost pre = fields@.subrange(0, i as int);
            assert(fields@.subrange(0, i + 1).drop_last() == pre);
            match fields[i].as_join() {
                Some(j) => {
                    out.push(j);
                },
                None => {},
            }
            i += 1;
        }
        assert(fields@.subrange(0, fields@.len() as int) == fields@);
        out
    }
}

/// Takes the value of one join out of a returned document.
pub fn decode_join(doc: &Document, join: &JoinSpec) -> (r: Result<Value, Error>)
    ensures
        match decode_model(doc@, join.alias@, join.arity) {
            Some(v) => r matches Ok(x) && x@ == v,
            None => r == Err::<Value, Error>(Error::NotFound),
        },
{
    match doc.get(join.alias.as_str()) {
        None => Err(Error::NotFound),
        Some(found) => match found {
            Value::Array(items) => {
                if join.arity == Arity::Many {
                    Ok(found.deep_clone())
                } else if items.len() == 0 {
                    proof {
                        lemma_vals_of(items@);
                    }
                    Err(Error::NotFound)
                } else {
                    proof {
                        lemma_vals_of(items@);
                    }
                    Ok(items[0].deep_clone())
                }
            },
            Value::Doc(d) => {
                if join.arity == Arity::Many {
                    let mut items: Vec<Value> = Vec::new();
                    items.push(Value::Doc(d.deep_clone()));
                    proof {
                        lemma_vals_of(items@);
                        assert(vals_of(items@) =~= seq![Val::Doc(d@)]);
                    }
                    Ok(Value::Array(items))
                } else {
                    Ok(Value::Doc(d.deep_clone()))
                }
            },
            _ => Err(Error::NotFound),
        },
    }
}

/// A returned document with the values of its joins, in join order.
#[derive(Debug, PartialEq)]
pub struct JoinResult {
    pub primary: Document,
    pub joined: Vec<Value>,
}

/// Decodes every join of a returned document; fails with `NotFound` as soon
/// as one join result is missing.
pub fn decode_joins(doc: Document, joins: &Vec<JoinSpec>) -> (r: Result<JoinResult, Error>)
    ensures
        (forall|i: int| 0 <= i < joins.len() ==> #[trigger] decode_model(doc@, joins@[i].alias@, joins@[i].arity) is Some)
            <==> r is Ok,
        r is Err ==> r == Err::<JoinResult, Error>(Error::NotFound),
        r matches Ok(res) ==> res.primary@ == doc@ && vals_of(res.joined@).len() == joins.len() && forall|i: int|
            0 <= i < joins.len() ==> decode_model(doc@, joins@[i].alias@, joins@[i].arity) == Some(
                #[trigger] vals_of(res.joined@)[i],
            ),
{
    let mut joined: Vec<Value> = Vec::new();
    let mut i: usize = 0;
    while i < joins.len()
        invariant
            i <= joins.len(),
            joined.len() == i,
            forall|k: int| 0 <= k < i ==> decode_model(doc@, joins@[k].alias@, joins@[k].arity) == Some(
                #[trigger] joined@[k]@,
            ),
        decreases joins.len() - i,
    {
        match decode_join(&doc, &joins[i]) {
            Ok(v) => joined.push(v),
            Err(e) => {
                assert(decode_model(doc@, joins@[i as int].alias@, joins@[i as int].arity) is None);
                return Err(e);
            },
        }
        i += 1;
    }
    proof {
        lemma_vals_of(joined@);
        assert forall|k: int| 0 <= k < joins.len() implies #[trigger] decode_model(
            doc@,
            joins@[k].alias@,
            joins@[k].arity,
        ) is Some by {
            assert(decode_model(doc@, joins@[k].alias@, joins@[k].arity) == Some(joined@[k]@));
        }
    }
    Ok(JoinResult { primary: doc, joined })
}

} // verus!
