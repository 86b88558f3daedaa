use vstd::prelude::*;

use crate::assoc::{
    assoc_find, assoc_lookup, assoc_set, assoc_wf, lemma_assoc_lookup_at,
    lemma_assoc_lookup_some_iff,
};
use crate::fragment::PathFragment;

verus! {

/// An environment variable is *static* (a fixed string, resolved
/// immediately) or *dynamic* (a fragment sequence whose resolution is
/// deferred until the variable is used).
#[derive(Debug)]
pub enum EnvironmentVariable {
    Static(String),
    Dynamic(Vec<PathFragment>),
}

/// Named environment variables.  Names are unique in a well-formed
/// environment, and resolution never changes the set of entries.
#[derive(Debug)]
pub struct Environment {
    /// The bindings, in insertion order.
    pub entries: Vec<(String, EnvironmentVariable)>,
}

impl Environment {
    /// Each name is bound at most once.
    pub open spec fn wf(self) -> bool {
        assoc_wf(self.entries@)
    }

    /// The variable bound to `name`, if any.
    pub open spec fn spec_lookup(self, name: Seq<char>) -> Option<EnvironmentVariable> {
        assoc_lookup(self.entries@, name)
    }

    pub fn new() -> (r: Self)
        ensures
            r.wf(),
            r.entries@ == Seq::<(String, EnvironmentVariable)>::empty(),
    {
        Environment { entries: Vec::new() }
    }

    /// Bind `name` to `value`, replacing any earlier binding of that name.
    pub fn set(&mut self, name: String, value: EnvironmentVariable)
        requires
            old(self).wf(),
        ensures
            final(self).wf(),
            final(self).spec_lookup(name@) == Some(value),
            forall|n: Seq<char>| n != name@ ==> final(self).spec_lookup(n) == old(
                self,
            ).spec_lookup(n),
    {
        assoc_set(&mut self.entries, name, value);
    }

    /// Look a name up, handing back a reference to its binding.
    pub fn lookup(&self, name: &String) -> (r: Option<&EnvironmentVariable>)
        ensures
            match r {
                Some(v) => self.spec_lookup(name@) == Some(*v),
                None => self.spec_lookup(name@) is None,
            },
    {
        match assoc_find(&self.entries, name) {
            Some(i) => {
                proof {
                    lemma_assoc_lookup_at(self.entries@, i as int);
                }
                Some(&self.entries[i].1)
            },
            None => {
                proof {
                    lemma_assoc_lookup_some_iff(self.entries@, name@);
                }
                None
            },
        }
    }
}

} // verus!
