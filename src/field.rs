use vstd::prelude::*;

use crate::value::{Val, Value};

verus! {

/// The declared type of a field, as far as filters check values against it.
#[derive(Clone, Copy, Debug, PartialEq, Eq, Structural)]
pub enum FieldType {
    Any,
    Bool,
    Int,
    Str,
    Id,
    Array,
    Document,
}

/// Whether a value may stand in a field of type `t`.
pub open spec fn type_accepts(t: FieldType, v: Val) -> bool {
    match t {
        FieldType::Any => true,
        FieldType::Bool => v is Bool,
        FieldType::Int => v is Int32 || v is Int64,
        FieldType::Str => v is Str,
        FieldType::Id => v is ObjectId,
        FieldType::Array => v is Array,
        FieldType::Document => v is Doc,
    }
}

/// How many documents a join yields for one document.
#[derive(Clone, Copy, Debug, PartialEq, Eq, Structural)]
pub enum Arity {
    One,
    Many,
}

/// Where a joinable field points.
#[derive(Debug, PartialEq, Eq)]
pub struct JoinInfo {
    /// The collection the field refers to.
    pub target_collection: String,
    /// The field of that collection the value is matched against.
    pub target_field: String,
    pub arity: Arity,
}

/// A named, typed field of a model, with where it joins to if it does.
#[derive(Debug, PartialEq, Eq)]
pub struct FieldDescriptor {
    pub name: String,
    pub ty: FieldType,
    /// The collection of the model that owns the field.
    pub model: String,
    pub join: Option<JoinInfo>,
}

/// Whether a join's result is a list rather than one document.
pub trait IsJoinOutputArray {
    spec fn spec_is_array(&self) -> bool;

    fn is_array(&self) -> (r: bool)
        ensures
            r == self.spec_is_array(),
    ;
}

impl IsJoinOutputArray for Arity {
    open spec fn spec_is_array(&self) -> bool {
        *self == Arity::Many
    }

    fn is_array(&self) -> (r: bool) {
        *self == Arity::Many
    }
}

impl IsJoinOutputArray for JoinInfo {
    open spec fn spec_is_array(&self) -> bool {
        self.arity == Arity::Many
    }

    fn is_array(&self) -> (r: bool) {
        self.arity == Arity::Many
    }
}

impl JoinInfo {
    pub fn copy(&self) -> (r: JoinInfo)
        ensures
            r == *self,
    {
        JoinInfo {
            target_collection: self.target_collection.clone(),
            target_field: self.target_field.clone(),
            arity: self.arity,
        }
    }
}

impl FieldDescriptor {
    pub fn new(name: String, ty: FieldType, model: String) -> (r: FieldDescriptor)
        ensures
            r.name == name,
            r.ty == ty,
            r.model == model,
            r.join is None,
    {
        FieldDescriptor { name, ty, model, join: None }
    }

    /// The same field, joining to `info`.
    pub fn with_join(self, info: JoinInfo) -> (r: FieldDescriptor)
        ensures
            r == (FieldDescriptor { join: Some(info), ..self }),
    {
        FieldDescriptor { join: Some(info), ..self }
    }

    /// Whether `v` may be compared with, or stored in, this field.
    pub fn accepts(&self, v: &Value) -> (r: bool)
        ensures
            r == type_accepts(self.ty, v@),
    {
        match self.ty {
            FieldType::Any => true,
            FieldType::Bool => matches!(v, Value::Bool(_)),
            FieldType::Int => matches!(v, Value::Int32(_)) || matches!(v, Value::Int64(_)),
            FieldType::Str => matches!(v, Value::Str(_)),
            FieldType::Id => matches!(v, Value::ObjectId(_)),
            FieldType::Array => matches!(v, Value::Array(_)),
            FieldType::Document => matches!(v, Value::Doc(_)),
        }
    }

    pub fn copy(&self) -> (r: FieldDescriptor)
        ensures
            r == *self,
    {
        let join = match &self.join {
            Some(j) => Some(j.copy()),
            None => None,
        };
        FieldDescriptor { name: self.name.clone(), ty: self.ty, model: self.model.clone(), join }
    }
}

} // verus!
