use vstd::prelude::*;

use crate::error::Error;

verus! {

/// The handles of a registration list by name; a name listed twice keeps
/// its last handle.
pub open spec fn handles_of<H>(s: Seq<(String, H)>) -> Map<Seq<char>, H>
    decreases s.len(),
{
    if s.len() == 0 {
        Map::empty()
    } else {
        handles_of(s.drop_last()).insert(s.last().0@, s.last().1)
    }
}

proof fn lemma_handles_of_last<H>(s: Seq<(String, H)>, k: Seq<char>, i: int)
    requires
        0 <= i < s.len(),
        s[i].0@ == k,
        forall|j: int| i < j < s.len() ==> s[j].0@ != k,
    ensures
        handles_of(s).contains_key(k),
        handles_of(s)[k] == s[i].1,
    decreases s.len(),
{
    if i < s.len() - 1 {
        lemma_handles_of_last(s.drop_last(), k, i);
    }
}

proof fn lemma_handles_of_absent<H>(s: Seq<(String, H)>, k: Seq<char>)
    requires
        forall|j: int| 0 <= j < s.len() ==> s[j].0@ != k,
    ensures
        !handles_of(s).contains_key(k),
    decreases s.len(),
{
    if s.len() > 0 {
        lemma_handles_of_absent(s.drop_last(), k);
    }
}

/// The logical databases of one client, registered once and then looked up
/// by name.
pub struct Registry<H> {
    databases: Option<Vec<(String, H)>>,
}

impl<H> Registry<H> {
    /// The registered databases by name; `None` before registration.
    pub closed spec fn view(&self) -> Option<Map<Seq<char>, H>> {
        match self.databases {
            Some(v) => Some(handles_of(v@)),
            None => None,
        }
    }

    pub fn new() -> (r: Registry<H>)
        ensures
            r@ is None,
    {
        Registry { databases: None }
    }

    /// Registers the databases; a second registration fails and changes nothing.
    pub fn connect_database(&mut self, databases: Vec<(String, H)>) -> (r: Result<(), Error>)
        ensures
            old(self)@ is Some ==> r == Err::<(), Error>(Error::InitializationConflict) && final(self)@ == old(
                self,
            )@,
            old(self)@ is None ==> r is Ok && final(self)@ == Some(handles_of(databases@)),
    {
        if self.databases.is_some() {
            return Err(Error::InitializationConflict);
        }
        self.databases = Some(databases);
        Ok(())
    }

    /// The database registered under `name`.
    pub fn get_database(&self, name: &str) -> (r: Result<&H, Error>)
        ensures
            self@ is None ==> r == Err::<&H, Error>(Error::Uninitialized),
            self@ matches Some(m) ==> if m.contains_key(name@) {
                r matches Ok(h) && *h == m[name@]
            } else {
                r matches Err(Error::UnknownDatabase(n)) && n@ == name@
            },
    {
        match &self.databases {
            None => Err(Error::Uninitialized),
            Some(v) => {
                let key = name.to_owned();
                let mut i: usize = v.len();
                while i > 0
                    invariant
                        self.databases == Some(*v),
                        i <= v.len(),
                        key@ == name@,
                        forall|j: int| i <= j < v.len() ==> v@[j].0@ != name@,
                    decreases i,
                {
                    if v[i - 1].0 == key {
                        proof {
                            lemma_handles_of_last(v@, name@, i - 1);
                        }
                        return Ok(&v[i - 1].1);
                    }
                    i -= 1;
                }
                proof {
                    lemma_handles_of_absent(v@, name@);
                }
                Err(Error::UnknownDatabase(key))
            },
        }
    }
}

} // verus!
