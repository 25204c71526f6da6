use vstd::prelude::*;

use crate::field::FieldDescriptor;
use crate::model::{distinct, field_names, identity_name, ModelDescriptor};
use crate::value::{doc_insert, has_key, lemma_insert_fresh, Document, Val, Value};

verus! {

broadcast use vstd::seq_lib::group_seq_properties;

pub open spec fn opt_view(o: Option<Value>) -> Option<Val> {
    match o {
        Some(v) => Some(v@),
        None => None,
    }
}

/// The `$set` entries of an update: every present value under its field
/// name, in field order; absent fields do not appear.
pub open spec fn set_entries(s: Seq<(Seq<char>, Option<Val>)>) -> Seq<(Seq<char>, Val)>
    decreases s.len(),
{
    if s.len() == 0 {
        Seq::empty()
    } else {
        let rest = set_entries(s.drop_last());
        match s.last().1 {
            Some(v) => doc_insert(rest, s.last().0, v),
            None => rest,
        }
    }
}

/// The present values of an update under their names, in order.
pub open spec fn present_entries(s: Seq<(Seq<char>, Option<Val>)>) -> Seq<(Seq<char>, Val)>
    decreases s.len(),
{
    if s.len() == 0 {
        Seq::empty()
    } else {
        let rest = present_entries(s.drop_last());
        match s.last().1 {
            Some(v) => rest.push((s.last().0, v)),
            None => rest,
        }
    }
}

pub open spec fn update_names(s: Seq<(Seq<char>, Option<Val>)>) -> Seq<Seq<char>> {
    s.map_values(|e: (Seq<char>, Option<Val>)| e.0)
}

proof fn lemma_set_entries_names(s: Seq<(Seq<char>, Option<Val>)>, k: Seq<char>)
    requires
        forall|i: int| 0 <= i < s.len() ==> s[i].0 != k,
    ensures
        forall|j: int| 0 <= j < set_entries(s).len() ==> set_entries(s)[j].0 != k,
    decreases s.len(),
{
    if s.len() > 0 {
        let rest = set_entries(s.drop_last());
        lemma_set_entries_names(s.drop_last(), k);
        if let Some(v) = s.last().1 {
            if has_key(rest, s.last().0) {
                let w = choose|w: int| 0 <= w < rest.len() && rest[w].0 == s.last().0;
                crate::value::lemma_first_key_exists(rest, s.last().0, w);
                let i = choose|i: int| crate::value::first_key(rest, s.last().0, i);
                assert(set_entries(s) == rest.update(i, (s.last().0, v)));
            }
        }
    }
}

/// With distinct field names, an update's `$set` holds exactly the present
/// values, in field order: absent fields are left out, not set to null.
pub proof fn lemma_set_holds_present_values(s: Seq<(Seq<char>, Option<Val>)>)
    requires
        distinct(update_names(s)),
    ensures
        set_entries(s) == present_entries(s),
    decreases s.len(),
{
    if s.len() > 0 {
        let pre = s.drop_last();
        assert forall|a: int, b: int| 0 <= a < b < update_names(pre).len() implies update_names(pre)[a]
            != update_names(pre)[b] by {
            assert(update_names(s)[a] != update_names(s)[b]);
        }
        lemma_set_holds_present_values(pre);
        assert forall|i: int| 0 <= i < pre.len() implies pre[i].0 != s.last().0 by {
            assert(update_names(s)[i] != update_names(s)[s.len() - 1]);
        }
        lemma_set_entries_names(pre, s.last().0);
        if let Some(v) = s.last().1 {
            lemma_insert_fresh(set_entries(pre), s.last().0, v);
        }
    }
}

/// The fields an update may set: all but the identity field, in declaration order.
pub open spec fn updatable(fields: Seq<FieldDescriptor>) -> Seq<Seq<char>> {
    field_names(fields).filter(|n: Seq<char>| n != identity_name())
}

/// For each updatable field of a model, an optional new value.
#[derive(Debug)]
pub struct UpdateValue {
    entries: Vec<(String, Option<Value>)>,
}

impl UpdateValue {
    pub closed spec fn view(&self) -> Seq<(Seq<char>, Option<Val>)> {
        self.entries@.map_values(|e: (String, Option<Value>)| (e.0@, opt_view(e.1)))
    }

    /// An update of `model` that changes nothing yet.
    pub fn new(model: &ModelDescriptor) -> (r: UpdateValue)
        ensures
            r@.map_values(|e: (Seq<char>, Option<Val>)| e.0) == updatable(model.fields()),
            forall|i: int| 0 <= i < r@.len() ==> (#[trigger] r@[i]).1 is None,
    {
        let fields = model.field_list();
        let id = "_id".to_owned();
        let mut entries: Vec<(String, Option<Value>)> = Vec::new();
        let mut i: usize = 0;
        let ghost keep = |n: Seq<char>| n != identity_name();
        while i < fields.len()
            invariant
                i <= fields.len(),
                id@ == identity_name(),
                fields@ == model.fields(),
                keep == (|n: Seq<char>| n != identity_name()),
                entries@.map_values(|e: (String, Option<Value>)| e.0@) == field_names(
                    fields@.subrange(0, i as int),
                ).filter(keep),
                forall|k: int| 0 <= k < entries.len() ==> (#[trigger] entries@[k]).1 is None,
            decreases fields.len() - i,
        {
            let ghost pre = fields@.subrange(0, i as int);
            assert(fields@.subrange(0, i + 1) == pre.push(fields@[i as int]));
            assert(field_names(pre.push(fields@[i as int])) == field_names(pre).push(fields@[i as int].name@));
            proof {
                field_names(pre).lemma_filter_push(fields@[i as int].name@, keep);
            }
            if fields[i].name != id {
                let ghost before = entries@;
                entries.push((fields[i].name.clone(), None));
                assert(entries@.map_values(|e: (String, Option<Value>)| e.0@) == before.map_values(
                    |e: (String, Option<Value>)| e.0@,
                ).push(fields@[i as int].name@));
            }
            i += 1;
        }
        assert(fields@.subrange(0, fields@.len() as int) == fields@);
        let r = UpdateValue { entries };
        assert(r@.map_values(|e: (Seq<char>, Option<Val>)| e.0) =~= entries@.map_values(
            |e: (String, Option<Value>)| e.0@,
        ));
        r
    }

    /// Gives the field `name` a new value; false, and nothing changes, when
    /// no updatable field has that name.
    pub fn set(&mut self, name: &str, value: Value) -> (found: bool)
        ensures
            found == exists|i: int| 0 <= i < old(self)@.len() && old(self)@[i].0 == name@,
            found ==> exists|i: int|
                0 <= i < old(self)@.len() && old(self)@[i].0 == name@ && (forall|j: int|
                    0 <= j < i ==> old(self)@[j].0 != name@) && final(self)@ == old(self)@.update(
                    i,
                    (name@, Some(value@)),
                ),
            !found ==> final(self)@ == old(self)@,
    {
        let key = name.to_owned();
        let mut i: usize = 0;
        while i < self.entries.len()
            invariant
                *self == *old(self),
                key@ == name@,
                i <= self.entries.len(),
                forall|j: int| 0 <= j < i ==> self@[j].0 != name@,
            decreases self.entries.len() - i,
        {
            if self.entries[i].0 == key {
                let ghost before = self@;
                assert(before[i as int].0 == name@);
                self.entries[i] = (key, Some(value));
                assert(self@ =~= before.update(i as int, (name@, Some(value@))));
                return true;
            }
            i += 1;
        }
        false
    }

    /// The update document `{"$set": {field: value, ...}}` over the fields
    /// that have a value; `{"$set": {}}` when none has.
    pub fn as_update(&self) -> (r: Document)
        ensures
            r@ == seq![("$set"@, Val::Doc(set_entries(self@)))],
    {
        let mut set = Document::new();
        let mut i: usize = 0;
        while i < self.entries.len()
            invariant
                i <= self.entries.len(),
                set@ == set_entries(self@.subrange(0, i as int)),
            decreases self.entries.len() - i,
        {
            let ghost pre = self@.subrange(0, i as int);
            assert(self@.subrange(0, i + 1).drop_last() == pre);
            match &self.entries[i].1 {
                Some(v) => {
                    set.insert(self.entries[i].0.clone(), v.deep_clone());
                },
                None => {},
            }
            i += 1;
        }
        assert(self@.subrange(0, self@.len() as int) == self@);
        let mut r = Document::new();
        r.insert("$set".to_owned(), Value::Doc(set));
        assert(r@ =~= seq![("$set"@, Val::Doc(set_entries(self@)))]);
        r
    }
}

} // verus!
