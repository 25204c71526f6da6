use vstd::prelude::*;

use crate::value::{Document, Val, Value};

verus! {

broadcast use vstd::seq_lib::group_seq_properties;

/// The decimal digits of a natural number.
pub open spec fn digits(n: nat) -> Seq<char>
    decreases n,
{
    if n < 10 {
        seq![digit_char(n)]
    } else {
        digits(n / 10).push(digit_char(n % 10))
    }
}

pub open spec fn digit_char(d: nat) -> char {
    if d == 0 { '0' }
    else if d == 1 { '1' }
    else if d == 2 { '2' }
    else if d == 3 { '3' }
    else if d == 4 { '4' }
    else if d == 5 { '5' }
    else if d == 6 { '6' }
    else if d == 7 { '7' }
    else if d == 8 { '8' }
    else { '9' }
}

/// An integer written in decimal, with a leading minus sign when negative.
pub open spec fn decimal(n: int) -> Seq<char> {
    if n < 0 {
        seq!['-'] + digits((-n) as nat)
    } else {
        digits(n as nat)
    }
}

fn digit_str(d: u64) -> (r: &'static str)
    requires
        d < 10,
    ensures
        r@ == seq![digit_char(d as nat)],
{
    proof {
        reveal_strlit("0");
        reveal_strlit("1");
        reveal_strlit("2");
        reveal_strlit("3");
        reveal_strlit("4");
        reveal_strlit("5");
        reveal_strlit("6");
        reveal_strlit("7");
        reveal_strlit("8");
        reveal_strlit("9");
    }
    if d == 0 { "0" }
    else if d == 1 { "1" }
    else if d == 2 { "2" }
    else if d == 3 { "3" }
    else if d == 4 { "4" }
    else if d == 5 { "5" }
    else if d == 6 { "6" }
    else if d == 7 { "7" }
    else if d == 8 { "8" }
    else { "9" }
}

fn append_digits(s: &mut String, n: u64)
    ensures
        final(s)@ == old(s)@ + digits(n as nat),
    decreases n,
{
    if n >= 10 {
        append_digits(s, n / 10);
    }
    s.append(digit_str(n % 10));
    assert(digits(n as nat) == if n < 10 {
        seq![digit_char(n as nat)]
    } else {
        digits((n / 10) as nat).push(digit_char((n % 10) as nat))
    });
}

/// Appends `n` in decimal.
fn append_decimal(s: &mut String, n: i32)
    ensures
        final(s)@ == old(s)@ + decimal(n as int),
{
    if n < 0 {
        s.append("-");
        proof {
            reveal_strlit("-");
        }
        let m: i64 = -(n as i64);
        append_digits(s, m as u64);
    } else {
        append_digits(s, n as u64);
    }
}

/// A declared index of a model.
#[derive(Debug, PartialEq, Eq)]
pub struct IndexSpec {
    /// The indexed field.
    pub field: String,
    /// The index name, the key by which reconciliation compares indexes.
    pub name: String,
    /// The sort order: 1 or -1.
    pub order: i32,
    pub unique: bool,
    /// Seconds after which documents expire.
    pub ttl: Option<u64>,
}

/// The index attribute written on a field, before it is given a name.
#[derive(Debug, PartialEq, Eq)]
pub struct FieldIndex {
    pub name: Option<String>,
    pub unique: bool,
    pub score: i32,
    pub exp: Option<u64>,
}

/// The name an unnamed index gets: field, score, uniqueness and expiry.
pub open spec fn derived_index_name(field: Seq<char>, score: i32, unique: bool, has_exp: bool) -> Seq<char> {
    "mangga_index_"@ + field + "_"@ + decimal(score as int) + "_"@ + (if unique {
        "unique"@
    } else {
        "no-unique"@
    }) + "_"@ + (if has_exp {
        "exp"@
    } else {
        "no-exp"@
    })
}

impl FieldIndex {
    /// An index attribute with nothing written: unnamed, not unique,
    /// ascending, no expiry.
    pub fn new() -> (r: FieldIndex)
        ensures
            r == (FieldIndex { name: None, unique: false, score: 1, exp: None }),
    {
        FieldIndex { name: None, unique: false, score: 1, exp: None }
    }

    /// The index this attribute declares on `field`; without an explicit name
    /// it gets the derived one, and any score but -1 sorts ascending.
    pub fn gen(&self, field: &str) -> (r: IndexSpec)
        ensures
            r.field@ == field@,
            r.name@ == match self.name {
                Some(n) => n@,
                None => derived_index_name(field@, self.score, self.unique, self.exp is Some),
            },
            r.order == if self.score == -1 { -1i32 } else { 1i32 },
            r.unique == self.unique,
            r.ttl == self.exp,
    {
        let name = match &self.name {
            Some(n) => n.clone(),
            None => {
                let mut s = "mangga_index_".to_owned();
                s.append(field);
                s.append("_");
                append_decimal(&mut s, self.score);
                s.append("_");
                if self.unique {
                    s.append("unique");
                } else {
                    s.append("no-unique");
                }
                s.append("_");
                if self.exp.is_some() {
                    s.append("exp");
                } else {
                    s.append("no-exp");
                }
                s
            },
        };
        let order: i32 = if self.score == -1 { -1 } else { 1 };
        IndexSpec { field: field.to_owned(), name, order, unique: self.unique, ttl: self.exp }
    }
}

impl IndexSpec {
    /// A field-for-field copy.
    pub fn copy(&self) -> (r: IndexSpec)
        ensures
            r == *self,
    {
        IndexSpec {
            field: self.field.clone(),
            name: self.name.clone(),
            order: self.order,
            unique: self.unique,
            ttl: self.ttl,
        }
    }

    /// The key document `{field: order}`.
    pub fn keys(&self) -> (r: Document)
        ensures
            r@ == seq![(self.field@, Val::Int32(self.order))],
    {
        let mut d = Document::new();
        d.insert(self.field.clone(), Value::Int32(self.order));
        d
    }
}

/// The names of a list of strings.
pub open spec fn str_views(s: Seq<String>) -> Seq<Seq<char>> {
    s.map_values(|x: String| x@)
}

/// The names of declared indexes.
pub open spec fn index_names(s: Seq<IndexSpec>) -> Seq<Seq<char>> {
    s.map_values(|x: IndexSpec| x.name@)
}

pub open spec fn undeclared(declared: Seq<IndexSpec>) -> spec_fn(Seq<char>) -> bool {
    |n: Seq<char>| !index_names(declared).contains(n)
}

pub open spec fn not_live(live: Seq<Seq<char>>) -> spec_fn(IndexSpec) -> bool {
    |s: IndexSpec| !live.contains(s.name@)
}

pub open spec fn not_identity_index() -> spec_fn(Seq<char>) -> bool {
    |n: Seq<char>| n != "_id_"@
}

/// Live indexes whose names nothing declares: these are dropped.
pub open spec fn drops_of(live: Seq<Seq<char>>, declared: Seq<IndexSpec>) -> Seq<Seq<char>> {
    live.filter(undeclared(declared))
}

/// Declared indexes whose names are not live: these are created.
pub open spec fn creates_of(live: Seq<Seq<char>>, declared: Seq<IndexSpec>) -> Seq<IndexSpec> {
    declared.filter(not_live(live))
}

/// What one reconciliation run changes: drops first, then creates.
#[derive(Debug)]
pub struct ReconciliationPlan {
    pub to_drop: Vec<String>,
    pub to_create: Vec<IndexSpec>,
}

impl ReconciliationPlan {
    pub open spec fn is_noop(&self) -> bool {
        self.to_drop.len() == 0 && self.to_create.len() == 0
    }
}

fn contains_str(v: &Vec<String>, n: &String) -> (r: bool)
    ensures
        r == str_views(v@).contains(n@),
{
    let mut i: usize = 0;
    while i < v.len()
        invariant
            i <= v.len(),
            forall|j: int| 0 <= j < i ==> v@[j]@ != n@,
        decreases v.len() - i,
    {
        if v[i] == *n {
            assert(str_views(v@)[i as int] == n@);
            return true;
        }
        i += 1;
    }
    false
}

fn contains_index_name(v: &Vec<IndexSpec>, n: &String) -> (r: bool)
    ensures
        r == index_names(v@).contains(n@),
{
    let mut i: usize = 0;
    while i < v.len()
        invariant
            i <= v.len(),
            forall|j: int| 0 <= j < i ==> v@[j].name@ != n@,
        decreases v.len() - i,
    {
        if v[i].name == *n {
            assert(index_names(v@)[i as int] == n@);
            return true;
        }
        i += 1;
    }
    false
}

/// The names of listed indexes without the implicit identity index `_id_`.
pub fn live_index_names(listed: Vec<String>) -> (r: Vec<String>)
    ensures
        str_views(r@) == str_views(listed@).filter(not_identity_index()),
{
    let id_index = "_id_".to_owned();
    let mut out: Vec<String> = Vec::new();
    let mut i: usize = 0;
    while i < listed.len()
        invariant
            i <= listed.len(),
            id_index@ == "_id_"@,
            str_views(out@) == str_views(listed@.subrange(0, i as int)).filter(not_identity_index()),
        decreases listed.len() - i,
    {
        let ghost pre = listed@.subrange(0, i as int);
        assert(listed@.subrange(0, i + 1) == pre.push(listed@[i as int]));
        assert(str_views(pre.push(listed@[i as int])) == str_views(pre).push(listed@[i as int]@));
        proof {
            str_views(pre).lemma_filter_push(listed@[i as int]@, not_identity_index());
        }
        if listed[i] != id_index {
            out.push(listed[i].clone());
            assert(str_views(out@) == str_views(out@.drop_last()).push(out@.last()@));
            assert(out@.drop_last() == out@.subrange(0, out@.len() - 1));
        }
        i += 1;
    }
    assert(listed@.subrange(0, listed@.len() as int) == listed@);
    out
}

/// The plan that brings the live indexes to the declared ones, by name.
pub fn plan(live: &Vec<String>, declared: &Vec<IndexSpec>) -> (r: ReconciliationPlan)
    ensures
        str_views(r.to_drop@) == drops_of(str_views(live@), declared@),
        r.to_create@ == creates_of(str_views(live@), declared@),
{
    let mut to_drop: Vec<String> = Vec::new();
    let mut i: usize = 0;
    while i < live.len()
        invariant
            i <= live.len(),
            str_views(to_drop@) == drops_of(str_views(live@.subrange(0, i as int)), declared@),
        decreases live.len() - i,
    {
        let ghost pre = live@.subrange(0, i as int);
        assert(live@.subrange(0, i + 1) == pre.push(live@[i as int]));
        assert(str_views(pre.push(live@[i as int])) == str_views(pre).push(live@[i as int]@));
        proof {
            str_views(pre).lemma_filter_push(live@[i as int]@, undeclared(declared@));
        }
        if !contains_index_name(declared, &live[i]) {
            let ghost before = to_drop@;
            to_drop.push(live[i].clone());
            assert(to_drop@ == before.push(live@[i as int]));
            assert(str_views(before.push(live@[i as int])) == str_views(before).push(live@[i as int]@));
        }
        i += 1;
    }
    assert(live@.subrange(0, live@.len() as int) == live@);
    let mut to_create: Vec<IndexSpec> = Vec::new();
    let mut k: usize = 0;
    while k < declared.len()
        invariant
            k <= declared.len(),
            to_create@ == creates_of(str_views(live@), declared@.subrange(0, k as int)),
        decreases declared.len() - k,
    {
        let ghost pre = declared@.subrange(0, k as int);
        assert(declared@.subrange(0, k + 1) == pre.push(declared@[k as int]));
        proof {
            pre.lemma_filter_push(declared@[k as int], not_live(str_views(live@)));
        }
        if !contains_str(live, &declared[k].name) {
            to_create.push(declared[k].copy());
        }
        k += 1;
    }
    assert(declared@.subrange(0, declared@.len() as int) == declared@);
    ReconciliationPlan { to_drop, to_create }
}

/// When the live index names are exactly the declared ones, reconciliation
/// drops nothing and creates nothing.
pub proof fn lemma_plan_noop_when_converged(live: Seq<Seq<char>>, declared: Seq<IndexSpec>)
    requires
        live.to_set() == index_names(declared).to_set(),
    ensures
        drops_of(live, declared).len() == 0,
        creates_of(live, declared).len() == 0,
{
    let dp = undeclared(declared);
    let cp = not_live(live);
    if drops_of(live, declared).len() > 0 {
        let n = drops_of(live, declared)[0];
        assert(live.filter(dp).contains(n));
        live.lemma_filter_contains_rev(dp, n);
        live.lemma_filter_pred(dp, 0);
        assert(live.to_set().contains(n));
        assert(index_names(declared).to_set().contains(n));
    }
    if creates_of(live, declared).len() > 0 {
        let s = creates_of(live, declared)[0];
        assert(declared.filter(cp).contains(s));
        declared.lemma_filter_contains_rev(cp, s);
        declared.lemma_filter_pred(cp, 0);
        let i = choose|i: int| 0 <= i < declared.len() && declared[i] == s;
        assert(index_names(declared)[i] == s.name@);
        assert(index_names(declared).to_set().contains(s.name@));
        assert(live.to_set().contains(s.name@));
    }
}

/// After the drops and creates of a plan, the index names present are
/// exactly the declared ones.
pub proof fn lemma_plan_converges(live: Seq<Seq<char>>, declared: Seq<IndexSpec>, n: Seq<char>)
    ensures
        (live.contains(n) && !drops_of(live, declared).contains(n))
            || index_names(creates_of(live, declared)).contains(n)
            <==> index_names(declared).contains(n),
{
    let dp = undeclared(declared);
    let cp = not_live(live);
    let creates = creates_of(live, declared);
    if index_names(declared).contains(n) {
        let i = choose|i: int| 0 <= i < index_names(declared).len() && index_names(declared)[i] == n;
        if !live.contains(n) {
            declared.lemma_filter_contains(cp, i);
            let j = choose|j: int| 0 <= j < creates.len() && creates[j] == declared[i];
            assert(index_names(creates)[j] == n);
        } else if drops_of(live, declared).contains(n) {
            let j = choose|j: int| 0 <= j < live.filter(dp).len() && live.filter(dp)[j] == n;
            live.lemma_filter_pred(dp, j);
        }
    } else {
        if live.contains(n) {
            let i = choose|i: int| 0 <= i < live.len() && live[i] == n;
            live.lemma_filter_contains(dp, i);
        }
        if index_names(creates).contains(n) {
            let j = choose|j: int| 0 <= j < creates.len() && index_names(creates)[j] == n;
            assert(creates.contains(creates[j]));
            declared.lemma_filter_contains_rev(cp, creates[j]);
            let i = choose|i: int| 0 <= i < declared.len() && declared[i] == creates[j];
            assert(index_names(declared)[i] == n);
        }
    }
}

pub open spec fn not_dropped(live: Seq<Seq<char>>, declared: Seq<IndexSpec>) -> spec_fn(Seq<char>) -> bool {
    |n: Seq<char>| !drops_of(live, declared).contains(n)
}

/// The index names once a plan has run: the live ones it kept, then the
/// ones it created.
pub open spec fn after_plan(live: Seq<Seq<char>>, declared: Seq<IndexSpec>) -> Seq<Seq<char>> {
    live.filter(not_dropped(live, declared)) + index_names(creates_of(live, declared))
}

/// Reconciliation is idempotent: run again after a plan has been applied,
/// it drops nothing and creates nothing.
pub proof fn lemma_reconcile_idempotent(live: Seq<Seq<char>>, declared: Seq<IndexSpec>)
    ensures
        drops_of(after_plan(live, declared), declared).len() == 0,
        creates_of(after_plan(live, declared), declared).len() == 0,
{
    let after = after_plan(live, declared);
    let kept = live.filter(not_dropped(live, declared));
    assert forall|n: Seq<char>| after.to_set().contains(n) == index_names(declared).to_set().contains(n) by {
        lemma_plan_converges(live, declared, n);
        let kept_here = live.contains(n) && !drops_of(live, declared).contains(n);
        if kept_here {
            let i = choose|i: int| 0 <= i < live.len() && live[i] == n;
            live.lemma_filter_contains(not_dropped(live, declared), i);
        }
        if kept.contains(n) {
            live.lemma_filter_contains_rev(not_dropped(live, declared), n);
            let j = choose|j: int| 0 <= j < kept.len() && kept[j] == n;
            live.lemma_filter_pred(not_dropped(live, declared), j);
        }
        assert(after.contains(n) == (kept.contains(n) || index_names(creates_of(live, declared)).contains(n)));
    }
    assert(after.to_set() =~= index_names(declared).to_set());
    lemma_plan_noop_when_converged(after, declared);
}

} // verus!
