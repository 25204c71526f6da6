use vstd::prelude::*;

use crate::field::FieldDescriptor;
use crate::index::{index_names, str_views, IndexSpec};

verus! {

broadcast use vstd::seq_lib::group_seq_properties;

/// Malformed model metadata, found when a model is registered.
#[derive(Debug, PartialEq, Eq)]
pub enum ModelError {
    MissingName,
    MissingDatabase,
    NoIdentityField,
    DuplicateField(String),
    DuplicateIndex(String),
    UnknownIndexField(String),
}

/// A model's collection name and the logical database that holds it.
#[derive(Debug, PartialEq, Eq)]
pub struct ItemAttrs {
    pub name: String,
    pub db_name: String,
}

impl ItemAttrs {
    /// Both names are required.
    pub fn new(name: String, db_name: String) -> (r: Result<ItemAttrs, ModelError>)
        ensures
            name@.len() == 0 ==> r == Err::<ItemAttrs, ModelError>(ModelError::MissingName),
            name@.len() > 0 && db_name@.len() == 0 ==> r == Err::<ItemAttrs, ModelError>(
                ModelError::MissingDatabase,
            ),
            name@.len() > 0 && db_name@.len() > 0 ==> r == Ok::<ItemAttrs, ModelError>(
                ItemAttrs { name, db_name },
            ),
    {
        if name.as_str().is_empty() {
            Err(ModelError::MissingName)
        } else if db_name.as_str().is_empty() {
            Err(ModelError::MissingDatabase)
        } else {
            Ok(ItemAttrs { name, db_name })
        }
    }
}

/// No name occurs twice.
pub open spec fn distinct(s: Seq<Seq<char>>) -> bool {
    forall|i: int, j: int| 0 <= i < j < s.len() ==> s[i] != s[j]
}

/// The names of a model's fields, in declaration order.
pub open spec fn field_names(fields: Seq<FieldDescriptor>) -> Seq<Seq<char>> {
    fields.map_values(|f: FieldDescriptor| f.name@)
}

/// The name of the identity field, the document key.
pub open spec fn identity_name() -> Seq<char> {
    "_id"@
}

/// What registration checks of a model's metadata.
pub open spec fn valid_model(fields: Seq<FieldDescriptor>, indexes: Seq<IndexSpec>) -> bool {
    &&& distinct(field_names(fields))
    &&& field_names(fields).contains(identity_name())
    &&& distinct(index_names(indexes))
    &&& forall|i: int| 0 <= i < indexes.len() ==> field_names(fields).contains(#[trigger] indexes[i].field@)
}

/// A registered model: its names, its fields in declaration order with
/// exactly one identity field, and its declared indexes.
#[derive(Debug)]
pub struct ModelDescriptor {
    attrs: ItemAttrs,
    fields: Vec<FieldDescriptor>,
    indexes: Vec<IndexSpec>,
}

/// The position of a name that repeats an earlier one, if any.
fn duplicate_name(names: &Vec<String>) -> (r: Option<usize>)
    ensures
        r is None <==> distinct(str_views(names@)),
        r matches Some(i) ==> i < names.len() && exists|j: int| 0 <= j < i && names@[j]@ == names@[i as int]@,
{
    let mut i: usize = 0;
    while i < names.len()
        invariant
            i <= names.len(),
            forall|a: int, b: int| 0 <= a < b < i ==> names@[a]@ != names@[b]@,
        decreases names.len() - i,
    {
        let mut j: usize = 0;
        while j < i
            invariant
                i < names.len(),
                j <= i,
                forall|a: int| 0 <= a < j ==> names@[a]@ != names@[i as int]@,
            decreases i - j,
        {
            if names[j] == names[i] {
                assert(str_views(names@)[j as int] == str_views(names@)[i as int]);
                return Some(i);
            }
            j += 1;
        }
        i += 1;
    }
    assert forall|a: int, b: int| 0 <= a < b < str_views(names@).len() implies str_views(names@)[a] != str_views(
        names@,
    )[b] by {
        assert(names@[a]@ != names@[b]@);
    }
    None
}

fn names_of_fields(fields: &Vec<FieldDescriptor>) -> (r: Vec<String>)
    ensures
        str_views(r@) == field_names(fields@),
{
    let mut out: Vec<String> = Vec::new();
    let mut i: usize = 0;
    while i < fields.len()
        invariant
            i <= fields.len(),
            out.len() == i,
            forall|k: int| 0 <= k < i ==> #[trigger] out@[k]@ == fields@[k].name@,
        decreases fields.len() - i,
    {
        out.push(fields[i].name.clone());
        i += 1;
    }
    assert(str_views(out@) =~= field_names(fields@));
    out
}

fn names_of_indexes(indexes: &Vec<IndexSpec>) -> (r: Vec<String>)
    ensures
        str_views(r@) == index_names(indexes@),
{
    let mut out: Vec<String> = Vec::new();
    let mut i: usize = 0;
    while i < indexes.len()
        invariant
            i <= indexes.len(),
            out.len() == i,
            forall|k: int| 0 <= k < i ==> #[trigger] out@[k]@ == indexes@[k].name@,
        decreases indexes.len() - i,
    {
        out.push(indexes[i].name.clone());
        i += 1;
    }
    assert(str_views(out@) =~= index_names(indexes@));
    out
}

fn contains_name(names: &Vec<String>, n: &String) -> (r: bool)
    ensures
        r == str_views(names@).contains(n@),
{
    let mut i: usize = 0;
    while i < names.len()
        invariant
            i <= names.len(),
            forall|j: int| 0 <= j < i ==> names@[j]@ != n@,
        decreases names.len() - i,
    {
        if names[i] == *n {
            assert(str_views(names@)[i as int] == n@);
            return true;
        }
        i += 1;
    }
    false
}

impl ModelDescriptor {
    pub closed spec fn attrs(&self) -> ItemAttrs {
        self.attrs
    }

    pub closed spec fn fields(&self) -> Seq<FieldDescriptor> {
        self.fields@
    }

    pub closed spec fn indexes(&self) -> Seq<IndexSpec> {
        self.indexes@
    }

    pub closed spec fn wf(&self) -> bool {
        valid_model(self.fields@, self.indexes@)
    }

    /// Registers a model, rejecting malformed metadata: checked in turn are
    /// distinct field names, an identity field, distinct index names, and
    /// indexes on declared fields only.
    pub fn new(attrs: ItemAttrs, fields: Vec<FieldDescriptor>, indexes: Vec<IndexSpec>) -> (r: Result<
        ModelDescriptor,
        ModelError,
    >)
        ensures
            match r {
                Ok(m) => {
                    &&& valid_model(fields@, indexes@)
                    &&& m.wf()
                    &&& m.attrs() == attrs
                    &&& m.fields() == fields@
                    &&& m.indexes() == indexes@
                },
                Err(ModelError::DuplicateField(n)) => !distinct(field_names(fields@))
                    && exists|i: int, j: int|
                    0 <= i < j < fields.len() && fields@[i].name@ == n@ && fields@[j].name@ == n@,
                Err(ModelError::NoIdentityField) => distinct(field_names(fields@)) && !field_names(
                    fields@,
                ).contains(identity_name()),
                Err(ModelError::DuplicateIndex(n)) => {
                    &&& distinct(field_names(fields@))
                    &&& field_names(fields@).contains(identity_name())
                    &&& exists|i: int, j: int|
                        0 <= i < j < indexes.len() && indexes@[i].name@ == n@ && indexes@[j].name@ == n@
                },
                Err(ModelError::UnknownIndexField(n)) => {
                    &&& distinct(field_names(fields@))
                    &&& field_names(fields@).contains(identity_name())
                    &&& distinct(index_names(indexes@))
                    &&& exists|i: int| 0 <= i < indexes.len() && indexes@[i].field@ == n@
                    &&& !field_names(fields@).contains(n@)
                },
                Err(_) => false,
            },
    {
        let names = names_of_fields(&fields);
        if let Some(i) = duplicate_name(&names) {
            let ghost j = choose|j: int| 0 <= j < i && names@[j]@ == names@[i as int]@;
            assert(field_names(fields@)[j] == field_names(fields@)[i as int]);
            return Err(ModelError::DuplicateField(names[i].clone()));
        }
        if !contains_name(&names, &"_id".to_owned()) {
            return Err(ModelError::NoIdentityField);
        }
        let index_list = names_of_indexes(&indexes);
        if let Some(i) = duplicate_name(&index_list) {
            let ghost j = choose|j: int| 0 <= j < i && index_list@[j]@ == index_list@[i as int]@;
            assert(index_names(indexes@)[j] == index_names(indexes@)[i as int]);
            return Err(ModelError::DuplicateIndex(index_list[i].clone()));
        }
        let mut k: usize = 0;
        while k < indexes.len()
            invariant
                k <= indexes.len(),
                str_views(names@) == field_names(fields@),
                distinct(field_names(fields@)),
                field_names(fields@).contains(identity_name()),
                distinct(index_names(indexes@)),
                forall|a: int| 0 <= a < k ==> field_names(fields@).contains(#[trigger] indexes@[a].field@),
            decreases indexes.len() - k,
        {
            if !contains_name(&names, &indexes[k].field) {
                return Err(ModelError::UnknownIndexField(indexes[k].field.clone()));
            }
            k += 1;
        }
        Ok(ModelDescriptor { attrs, fields, indexes })
    }

    pub fn attrs_ref(&self) -> (r: &ItemAttrs)
        ensures
            *r == self.attrs(),
    {
        &self.attrs
    }

    /// The fields in declaration order.
    pub fn field_list(&self) -> (r: &Vec<FieldDescriptor>)
        ensures
            r@ == self.fields(),
    {
        &self.fields
    }

    /// The declared indexes.
    pub fn index_list(&self) -> (r: &Vec<IndexSpec>)
        ensures
            r@ == self.indexes(),
    {
        &self.indexes
    }
}

} // verus!
