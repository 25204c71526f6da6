use vstd::prelude::*;

verus! {

#[verifier::external_type_specification]
#[verifier::external_body]
pub struct ExBson(bson::Bson);

/// Relies on the `Clone` that `bson::Bson` derives: the copy is the same value.
pub assume_specification[ <bson::Bson as Clone>::clone ](b: &bson::Bson) -> (r: bson::Bson)
    ensures
        r == *b,
;

/// A twelve-byte document identifier.
#[derive(Clone, Copy, Debug, PartialEq, Eq, Hash)]
pub struct ID {
    bytes: [u8; 12],
}

impl View for ID {
    type V = Seq<u8>;

    closed spec fn view(&self) -> Seq<u8> {
        self.bytes@
    }
}

impl ID {
    /// The identifier whose bytes are all zero.
    pub fn zeros() -> (r: ID)
        ensures
            r@ == Seq::new(12, |i: int| 0u8),
    {
        let r = ID { bytes: [0u8; 12] };
        assert(r@ =~= Seq::new(12, |i: int| 0u8));
        r
    }

    pub fn from_bytes(bytes: [u8; 12]) -> (r: ID)
        ensures
            r@ == bytes@,
    {
        ID { bytes }
    }

    pub fn bytes(&self) -> (r: [u8; 12])
        ensures
            r@ == self@,
    {
        self.bytes
    }
}

/// Types that can serve as a document identifier.
pub trait IsID {}

impl IsID for ID {}

/// Accepts identifier types only: a model's identity field type is checked
/// with it where the model is declared.
pub fn is_id<T: IsID>() {
}

/// A document value: the scalars the library inspects, arrays, embedded
/// documents, and any other wire value carried through unchanged.
#[derive(Debug, PartialEq)]
pub enum Value {
    Null,
    Bool(bool),
    Int32(i32),
    Int64(i64),
    Str(String),
    ObjectId(ID),
    Array(Vec<Value>),
    Doc(Document),
    Other(bson::Bson),
}

/// An ordered list of named values; `insert` keeps each name once.
#[derive(Debug, PartialEq)]
pub struct Document {
    entries: Vec<(String, Value)>,
}

/// What a value denotes.
pub enum Val {
    Null,
    Bool(bool),
    Int32(i32),
    Int64(i64),
    Str(Seq<char>),
    ObjectId(Seq<u8>),
    Array(Seq<Val>),
    Doc(Seq<(Seq<char>, Val)>),
    Other(bson::Bson),
}

impl Value {
    pub open spec fn view(&self) -> Val
        decreases self,
    {
        match self {
            Value::Null => Val::Null,
            Value::Bool(b) => Val::Bool(*b),
            Value::Int32(n) => Val::Int32(*n),
            Value::Int64(n) => Val::Int64(*n),
            Value::Str(s) => Val::Str(s@),
            Value::ObjectId(id) => Val::ObjectId(id@),
            Value::Array(items) => Val::Array(vals_of(items@)),
            Value::Doc(d) => Val::Doc(d.view()),
            Value::Other(b) => Val::Other(*b),
        }
    }
}

impl Document {
    /// The named values in order.
    pub closed spec fn view(&self) -> Seq<(Seq<char>, Val)>
        decreases self,
    {
        entries_of(self.entries@)
    }
}

/// The meanings of a sequence of values.
pub open spec fn vals_of(s: Seq<Value>) -> Seq<Val>
    decreases s,
{
    if s.len() == 0 {
        Seq::empty()
    } else {
        vals_of(s.subrange(0, s.len() - 1)).push(s[s.len() - 1].view())
    }
}

/// The meanings of a sequence of named values.
pub open spec fn entries_of(s: Seq<(String, Value)>) -> Seq<(Seq<char>, Val)>
    decreases s,
{
    if s.len() == 0 {
        Seq::empty()
    } else {
        entries_of(s.subrange(0, s.len() - 1)).push((s[s.len() - 1].0@, s[s.len() - 1].1.view()))
    }
}

/// Whether some entry carries the name `k`.
pub open spec fn has_key(es: Seq<(Seq<char>, Val)>, k: Seq<char>) -> bool {
    exists|i: int| 0 <= i < es.len() && es[i].0 == k
}

/// Whether `i` is the first position of the name `k`.
pub open spec fn first_key(es: Seq<(Seq<char>, Val)>, k: Seq<char>, i: int) -> bool {
    &&& 0 <= i < es.len()
    &&& es[i].0 == k
    &&& forall|j: int| 0 <= j < i ==> es[j].0 != k
}

/// The entries after setting `k` to `v`: an entry already named `k` takes the
/// new value in its place, otherwise the pair goes last.
pub open spec fn doc_insert(es: Seq<(Seq<char>, Val)>, k: Seq<char>, v: Val) -> Seq<(Seq<char>, Val)> {
    if has_key(es, k) {
        es.update(choose|i: int| first_key(es, k, i), (k, v))
    } else {
        es.push((k, v))
    }
}

/// The value under the first entry named `k`.
pub open spec fn doc_get(es: Seq<(Seq<char>, Val)>, k: Seq<char>) -> Option<Val> {
    if has_key(es, k) {
        Some(es[choose|i: int| first_key(es, k, i)].1)
    } else {
        None
    }
}

/// A document of one entry.
pub open spec fn doc1(k: Seq<char>, v: Val) -> Val {
    Val::Doc(seq![(k, v)])
}

/// Setting a name that is not there yet appends it.
pub proof fn lemma_insert_fresh(es: Seq<(Seq<char>, Val)>, k: Seq<char>, v: Val)
    requires
        forall|i: int| 0 <= i < es.len() ==> es[i].0 != k,
    ensures
        doc_insert(es, k, v) == es.push((k, v)),
{
}

/// A name that occurs has a first occurrence.
pub proof fn lemma_first_key_exists(es: Seq<(Seq<char>, Val)>, k: Seq<char>, i: int)
    requires
        0 <= i < es.len(),
        es[i].0 == k,
    ensures
        exists|j: int| first_key(es, k, j),
    decreases i,
{
    if exists|j: int| 0 <= j < i && es[j].0 == k {
        let j = choose|j: int| 0 <= j < i && es[j].0 == k;
        lemma_first_key_exists(es, k, j);
    } else {
        assert(first_key(es, k, i));
    }
}

pub proof fn lemma_first_key_unique(es: Seq<(Seq<char>, Val)>, k: Seq<char>, i: int, j: int)
    requires
        first_key(es, k, i),
        first_key(es, k, j),
    ensures
        i == j,
{
}

pub proof fn lemma_entries_of(s: Seq<(String, Value)>)
    ensures
        entries_of(s).len() == s.len(),
        forall|i: int| 0 <= i < s.len() ==> #[trigger] entries_of(s)[i] == (s[i].0@, s[i].1@),
    decreases s.len(),
{
    if s.len() > 0 {
        lemma_entries_of(s.subrange(0, s.len() - 1));
    }
}

pub proof fn lemma_vals_of(s: Seq<Value>)
    ensures
        vals_of(s).len() == s.len(),
        forall|i: int| 0 <= i < s.len() ==> #[trigger] vals_of(s)[i] == s[i]@,
    decreases s.len(),
{
    if s.len() > 0 {
        lemma_vals_of(s.subrange(0, s.len() - 1));
    }
}

impl Document {
    pub fn new() -> (r: Document)
        ensures
            r@ == Seq::<(Seq<char>, Val)>::empty(),
    {
        let r = Document { entries: Vec::new() };
        proof {
            lemma_entries_of(r.entries@);
        }
        assert(r@ =~= Seq::<(Seq<char>, Val)>::empty());
        r
    }

    pub fn len(&self) -> (r: usize)
        ensures
            r == self@.len(),
    {
        proof {
            lemma_entries_of(self.entries@);
        }
        self.entries.len()
    }

    /// The entries in order.
    pub fn entries(&self) -> (r: &Vec<(String, Value)>)
        ensures
            entries_of(r@) == self@,
    {
        &self.entries
    }

    /// The entries in order, by value.
    pub fn into_entries(self) -> (r: Vec<(String, Value)>)
        ensures
            entries_of(r@) == self@,
    {
        self.entries
    }

    /// Sets `key` to `value`, in place when the name is already there.
    pub fn insert(&mut self, key: String, value: Value)
        ensures
            final(self)@ == doc_insert(old(self)@, key@, value@),
    {
        let ghost es = self@;
        proof {
            lemma_entries_of(self.entries@);
        }
        let n = self.entries.len();
        let mut i: usize = 0;
        while i < n
            invariant
                *self == *old(self),
                es == self@,
                n == self.entries.len(),
                es.len() == n,
                i <= n,
                forall|j: int| 0 <= j < i ==> es[j].0 != key@,
                forall|j: int| 0 <= j < n ==> #[trigger] es[j] == (self.entries@[j].0@, self.entries@[j].1@),
            decreases n - i,
        {
            if self.entries[i].0 == key {
                let ghost old_entries = self.entries@;
                self.entries[i] = (key, value);
                proof {
                    assert(first_key(es, key@, i as int));
                    let c = choose|c: int| first_key(es, key@, c);
                    lemma_first_key_unique(es, key@, i as int, c);
                    assert(self.entries@ == old_entries.update(i as int, (key, value)));
                    lemma_entries_of(self.entries@);
                    assert(self@ =~= es.update(i as int, (key@, value@)));
                }
                return;
            }
            i += 1;
        }
        self.entries.push((key, value));
        proof {
            lemma_entries_of(self.entries@);
            assert(!has_key(es, key@));
            assert(self@ =~= es.push((key@, value@)));
        }
    }

    /// The value of the first entry named `key`.
    pub fn get(&self, key: &str) -> (r: Option<&Value>)
        ensures
            match r {
                Some(v) => doc_get(self@, key@) == Some(v@),
                None => doc_get(self@, key@) is None,
            },
    {
        let ghost es = self@;
        proof {
            lemma_entries_of(self.entries@);
        }
        let k = key.to_owned();
        let n = self.entries.len();
        let mut i: usize = 0;
        while i < n
            invariant
                es == self@,
                k@ == key@,
                n == self.entries.len(),
                es.len() == n,
                i <= n,
                forall|j: int| 0 <= j < i ==> es[j].0 != key@,
                forall|j: int| 0 <= j < n ==> #[trigger] es[j] == (self.entries@[j].0@, self.entries@[j].1@),
            decreases n - i,
        {
            if self.entries[i].0 == k {
                proof {
                    assert(first_key(es, key@, i as int));
                    let c = choose|c: int| first_key(es, key@, c);
                    lemma_first_key_unique(es, key@, i as int, c);
                }
                return Some(&self.entries[i].1);
            }
            i += 1;
        }
        None
    }

    /// An entry-for-entry copy.
    pub fn deep_clone(&self) -> (r: Document)
        ensures
            r@ == self@,
        decreases self, 0nat,
    {
        proof {
            lemma_entries_of(self.entries@);
        }
        let n = self.entries.len();
        let mut out: Vec<(String, Value)> = Vec::new();
        let mut i: usize = 0;
        while i < n
            invariant
                n == self.entries.len(),
                i <= n,
                out.len() == i,
                forall|j: int| 0 <= j < i ==> #[trigger] out@[j].0@ == self.entries@[j].0@ && out@[j].1@ == self.entries@[j].1@,
            decreases n - i,
        {
            proof {
                assert(decreases_to!(self => self.entries));
                assert(decreases_to!(self.entries => self.entries[i as int]));
            }
            let k = self.entries[i].0.clone();
            let v = self.entries[i].1.deep_clone();
            out.push((k, v));
            i += 1;
        }
        proof {
            lemma_entries_of(out@);
            assert(entries_of(out@) =~= entries_of(self.entries@));
        }
        Document { entries: out }
    }
}

impl Value {
    /// A copy of the whole value, nested arrays and documents included.
    pub fn deep_clone(&self) -> (r: Value)
        ensures
            r@ == self@,
        decreases self, 1nat,
    {
        match self {
            Value::Null => Value::Null,
            Value::Bool(b) => Value::Bool(*b),
            Value::Int32(n) => Value::Int32(*n),
            Value::Int64(n) => Value::Int64(*n),
            Value::Str(s) => Value::Str(s.clone()),
            Value::ObjectId(id) => Value::ObjectId(*id),
            Value::Array(items) => {
                proof {
                    lemma_vals_of(items@);
                }
                let n = items.len();
                let mut out: Vec<Value> = Vec::new();
                let mut i: usize = 0;
                while i < n
                    invariant
                        *self == Value::Array(*items),
                        n == items.len(),
                        i <= n,
                        out.len() == i,
                        forall|j: int| 0 <= j < i ==> #[trigger] out@[j]@ == items@[j]@,
                    decreases n - i,
                {
                    proof {
                        assert(decreases_to!(items => items[i as int]));
                        assert(decreases_to!(self => self->Array_0));
                    }
                    let v = items[i].deep_clone();
                    out.push(v);
                    i += 1;
                }
                proof {
                    lemma_vals_of(out@);
                    assert(vals_of(out@) =~= vals_of(items@));
                }
                Value::Array(out)
            },
            Value::Doc(d) => Value::Doc(d.deep_clone()),
            Value::Other(b) => Value::Other(b.clone()),
        }
    }
}

} // verus!
