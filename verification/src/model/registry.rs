//! A registry of named providers: insertion-ordered, with unique names, so
//! the tool can address each configured provider by name.

use vstd::prelude::*;

use crate::strutil::str_eq;

verus! {

pub struct ProviderRegistry<P> {
    /// Name-to-provider entries, in registration order, names unique.
    pub providers: Vec<(String, P)>,
}

impl<P> ProviderRegistry<P> {
    /// Well-formedness: no name occurs twice.
    pub open spec fn wf(&self) -> bool {
        forall|i: int, j: int|
            0 <= i < j < self.providers@.len() ==> self.providers@[i].0@ != self.providers@[j].0@
    }

    /// Does the registry hold an entry under this name?
    pub open spec fn has_name(&self, name: Seq<char>) -> bool {
        exists|i: int| 0 <= i < self.providers@.len() && #[trigger] self.providers@[i].0@ == name
    }

    pub fn new() -> (r: Self)
        ensures
            r.providers@.len() == 0,
            r.wf(),
    {
        ProviderRegistry { providers: Vec::new() }
    }

    /// Register a provider under a name; a second registration under the
    /// same name replaces the first.
    pub fn register(&mut self, name: String, provider: P)
        requires
            old(self).wf(),
        ensures
            final(self).wf(),
            if old(self).has_name(name@) {
                &&& final(self).providers@.len() == old(self).providers@.len()
                &&& (forall|j: int|
                    0 <= j < old(self).providers@.len() && old(self).providers@[j].0@ != name@
                        ==> final(self).providers@[j] == old(self).providers@[j])
                &&& (forall|j: int|
                    0 <= j < old(self).providers@.len() && #[trigger] old(self).providers@[j].0@
                        == name@ ==> final(self).providers@[j] == (name, provider))
            } else {
                final(self).providers@ == old(self).providers@.push((name, provider))
            },
    {
        let mut i: usize = 0;
        while i < self.providers.len()
            invariant
                i <= self.providers@.len(),
                self == old(self),
                old(self).wf(),
                forall|j: int| 0 <= j < i ==> #[trigger] self.providers@[j].0@ != name@,
            decreases self.providers@.len() - i,
        {
            if str_eq(self.providers[i].0.as_str(), name.as_str()) {
                proof {
                    assert(old(self).providers@[i as int].0@ == name@);
                }
                self.providers.set(i, (name, provider));
                proof {
                    assert forall|j: int|
                        0 <= j < old(self).providers@.len() && #[trigger] old(
                            self,
                        ).providers@[j].0@ == name@ implies j == i as int by {
                        if j != i as int {
                            assert(old(self).providers@[j].0@ != old(
                                self,
                            ).providers@[i as int].0@);
                        }
                    }
                }
                return ;
            }
            i += 1;
        }
        self.providers.push((name, provider));
    }

    /// The provider registered under this name, if any.
    pub fn get<'a>(&'a self, name: &str) -> (r: Option<&'a P>)
        ensures
            match r {
                Some(p) => exists|i: int|
                    0 <= i < self.providers@.len() && #[trigger] self.providers@[i].0@ == name@
                        && p == &self.providers@[i].1,
                None => !self.has_name(name@),
            },
    {
        let mut i: usize = 0;
        while i < self.providers.len()
            invariant
                i <= self.providers@.len(),
                forall|j: int| 0 <= j < i ==> #[trigger] self.providers@[j].0@ != name@,
            decreases self.providers@.len() - i,
        {
            if str_eq(self.providers[i].0.as_str(), name) {
                return Some(&self.providers[i].1);
            }
            i += 1;
        }
        None
    }

    /// The registered names, in registration order.
    pub fn list(&self) -> (r: Vec<String>)
        ensures
            r@.len() == self.providers@.len(),
            forall|i: int|
                0 <= i < r@.len() ==> #[trigger] r@[i]@ == self.providers@[i].0@,
    {
        let mut out: Vec<String> = Vec::new();
        let mut i: usize = 0;
        while i < self.providers.len()
            invariant
                i <= self.providers@.len(),
                out@.len() == i,
                forall|j: int| 0 <= j < i ==> #[trigger] out@[j]@ == self.providers@[j].0@,
            decreases self.providers@.len() - i,
        {
            out.push(self.providers[i].0.clone());
            i += 1;
        }
        out
    }
}

} // verus!
