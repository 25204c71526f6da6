use vstd::prelude::*;

use crate::error::Error;
use crate::index::{
    creates_of, drops_of, live_index_names, not_identity_index, plan, str_views, IndexSpec,
};

verus! {

broadcast use vstd::seq_lib::group_seq_properties;

/// Where a reconciliation run stands.
#[derive(Clone, Copy, Debug, PartialEq, Eq, Structural)]
pub enum Phase {
    Start,
    ListingCollections,
    CreatingCollection,
    ListingIndexes,
    Dropping,
    Creating,
    Done,
}

/// What the database answered to the last action.
#[derive(Debug)]
pub enum Event {
    /// The names of the database's collections.
    Collections(Vec<String>),
    CollectionCreated,
    /// The names of the collection's indexes, the identity index included.
    Indexes(Vec<String>),
    Dropped,
    Created,
    Failed(Error),
}

/// What the runner does next against the database.
#[derive(Debug)]
pub enum Action {
    ListCollections,
    CreateCollection(String),
    ListIndexes,
    DropIndex(String),
    CreateIndexes(Vec<IndexSpec>),
    /// The run is over, with its outcome.
    Finish(Result<(), Error>),
}

/// The decisions of one reconciliation run for one model: make sure the
/// collection exists, list its indexes, drop those no longer declared, then
/// create the missing ones. The runner performs each action and reports back.
pub struct Reconciler {
    collection: String,
    declared: Vec<IndexSpec>,
    phase: Phase,
    drops: Vec<String>,
    next_drop: usize,
    creates: Vec<IndexSpec>,
}

fn copy_specs(v: &Vec<IndexSpec>) -> (r: Vec<IndexSpec>)
    ensures
        r@ == v@,
{
    let mut out: Vec<IndexSpec> = Vec::new();
    let mut i: usize = 0;
    while i < v.len()
        invariant
            i <= v.len(),
            out@ == v@.subrange(0, i as int),
        decreases v.len() - i,
    {
        out.push(v[i].copy());
        i += 1;
    }
    out
}

impl Reconciler {
    pub closed spec fn collection(&self) -> Seq<char> {
        self.collection@
    }

    pub closed spec fn declared(&self) -> Seq<IndexSpec> {
        self.declared@
    }

    pub closed spec fn phase(&self) -> Phase {
        self.phase
    }

    /// The names the run drops, in order.
    pub closed spec fn drops(&self) -> Seq<Seq<char>> {
        str_views(self.drops@)
    }

    /// How many drops have been issued.
    pub closed spec fn issued_drops(&self) -> int {
        self.next_drop as int
    }

    /// The indexes the run creates.
    pub closed spec fn creates(&self) -> Seq<IndexSpec> {
        self.creates@
    }

    pub closed spec fn wf(&self) -> bool {
        &&& self.next_drop <= self.drops.len()
        &&& self.phase == Phase::Dropping ==> self.next_drop > 0
    }

    /// Whether `e` answers the action last handed out.
    pub open spec fn expects(&self, e: &Event) -> bool {
        match e {
            Event::Failed(_) => self.phase() != Phase::Start && self.phase() != Phase::Done,
            Event::Collections(_) => self.phase() == Phase::ListingCollections,
            Event::CollectionCreated => self.phase() == Phase::CreatingCollection,
            Event::Indexes(_) => self.phase() == Phase::ListingIndexes,
            Event::Dropped => self.phase() == Phase::Dropping,
            Event::Created => self.phase() == Phase::Creating,
        }
    }

    pub fn new(collection: String, declared: Vec<IndexSpec>) -> (r: Reconciler)
        ensures
            r.wf(),
            r.phase() == Phase::Start,
            r.collection() == collection@,
            r.declared() == declared@,
    {
        Reconciler {
            collection,
            declared,
            phase: Phase::Start,
            drops: Vec::new(),
            next_drop: 0,
            creates: Vec::new(),
        }
    }

    pub fn phase_now(&self) -> (r: Phase)
        ensures
            r == self.phase(),
    {
        self.phase
    }

    /// Begins the run: the first thing to learn is whether the collection exists.
    pub fn start(&mut self) -> (a: Action)
        requires
            old(self).wf(),
            old(self).phase() == Phase::Start,
        ensures
            final(self).wf(),
            a is ListCollections,
            final(self).phase() == Phase::ListingCollections,
            final(self).collection() == old(self).collection(),
            final(self).declared() == old(self).declared(),
    {
        self.phase = Phase::ListingCollections;
        Action::ListCollections
    }

    /// What comes once the drops are done: the creates, if any.
    fn after_drops(&mut self) -> (a: Action)
        ensures
            *final(self) == (Reconciler { phase: final(self).phase, ..*old(self) }),
            old(self).creates@.len() > 0 ==> (a matches Action::CreateIndexes(v) && v@ == old(self).creates@
                && final(self).phase == Phase::Creating),
            old(self).creates@.len() == 0 ==> (a == Action::Finish(Ok(())) && final(self).phase == Phase::Done),
    {
        if self.creates.len() > 0 {
            self.phase = Phase::Creating;
            Action::CreateIndexes(copy_specs(&self.creates))
        } else {
            self.phase = Phase::Done;
            Action::Finish(Ok(()))
        }
    }

    /// Takes the answer to the last action and decides the next one.
    pub fn step(&mut self, event: Event) -> (a: Action)
        requires
            old(self).wf(),
            old(self).expects(&event),
        ensures
            final(self).wf(),
            final(self).collection() == old(self).collection(),
            final(self).declared() == old(self).declared(),
            match event {
                Event::Failed(e) => a == Action::Finish(Err(e)) && final(self).phase() == Phase::Done,
                Event::Collections(names) => if str_views(names@).contains(old(self).collection()) {
                    a is ListIndexes && final(self).phase() == Phase::ListingIndexes
                } else {
                    a matches Action::CreateCollection(c) && c@ == old(self).collection()
                        && final(self).phase() == Phase::CreatingCollection
                },
                Event::CollectionCreated => a is ListIndexes && final(self).phase() == Phase::ListingIndexes,
                Event::Indexes(listed) => {
                    let live = str_views(listed@).filter(not_identity_index());
                    let d = drops_of(live, old(self).declared());
                    let c = creates_of(live, old(self).declared());
                    &&& final(self).drops() == d
                    &&& final(self).creates() == c
                    &&& if d.len() > 0 {
                        a matches Action::DropIndex(n) && n@ == d[0] && final(self).phase() == Phase::Dropping
                            && final(self).issued_drops() == 1
                    } else if c.len() > 0 {
                        a matches Action::CreateIndexes(v) && v@ == c && final(self).phase() == Phase::Creating
                    } else {
                        a == Action::Finish(Ok(())) && final(self).phase() == Phase::Done
                    }
                },
                Event::Dropped => {
                    let k = old(self).issued_drops();
                    &&& final(self).drops() == old(self).drops()
                    &&& final(self).creates() == old(self).creates()
                    &&& if k < old(self).drops().len() {
                        a matches Action::DropIndex(n) && n@ == old(self).drops()[k]
                            && final(self).phase() == Phase::Dropping && final(self).issued_drops() == k + 1
                    } else if old(self).creates().len() > 0 {
                        a matches Action::CreateIndexes(v) && v@ == old(self).creates()
                            && final(self).phase() == Phase::Creating
                    } else {
                        a == Action::Finish(Ok(())) && final(self).phase() == Phase::Done
                    }
                },
                Event::Created => a == Action::Finish(Ok(())) && final(self).phase() == Phase::Done,
            },
    {
        match event {
            Event::Failed(e) => {
                self.phase = Phase::Done;
                Action::Finish(Err(e))
            },
            Event::Collections(names) => {
                let mut found = false;
                let mut i: usize = 0;
                while i < names.len()
                    invariant
                        i <= names.len(),
                        found == str_views(names@.subrange(0, i as int)).contains(self.collection@),
                    decreases names.len() - i,
                {
                    let ghost pre = names@.subrange(0, i as int);
                    assert(names@.subrange(0, i + 1) == pre.push(names@[i as int]));
                    assert(str_views(pre.push(names@[i as int])) == str_views(pre).push(names@[i as int]@));
                    if names[i] == self.collection {
                        found = true;
                    }
                    i += 1;
                }
                assert(names@.subrange(0, names@.len() as int) == names@);
                if found {
                    self.phase = Phase::ListingIndexes;
                    Action::ListIndexes
                } else {
                    self.phase = Phase::CreatingCollection;
                    Action::CreateCollection(self.collection.clone())
                }
            },
            Event::CollectionCreated => {
                self.phase = Phase::ListingIndexes;
                Action::ListIndexes
            },
            Event::Indexes(listed) => {
                let live = live_index_names(listed);
                let p = plan(&live, &self.declared);
                self.drops = p.to_drop;
                self.creates = p.to_create;
                if self.drops.len() > 0 {
                    self.phase = Phase::Dropping;
                    self.next_drop = 1;
                    Action::DropIndex(self.drops[0].clone())
                } else {
                    self.next_drop = 0;
                    self.after_drops()
                }
            },
            Event::Dropped => {
                if self.next_drop < self.drops.len() {
                    let n = self.drops[self.next_drop].clone();
                    self.next_drop = self.next_drop + 1;
                    Action::DropIndex(n)
                } else {
                    self.after_drops()
                }
            },
            Event::Created => {
                self.phase = Phase::Done;
                Action::Finish(Ok(()))
            },
        }
    }
}

} // verus!
