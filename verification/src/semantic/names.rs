//! A set of names, as the passes over function bodies keep it while they
//! walk a scope.
use vstd::prelude::*;
use crate::text::str_eq;

verus! {

/// A set of names.
#[derive(Debug)]
pub struct NameSet {
    pub names: Vec<String>,
}

impl View for NameSet {
    type V = Set<Seq<char>>;

    open spec fn view(&self) -> Set<Seq<char>> {
        Set::new(
            |name: Seq<char>| exists|i: int| 0 <= i < self.names@.len() && (#[trigger] self.names@[i])@ == name,
        )
    }
}

impl NameSet {
    /// The empty set.
    pub fn new() -> (set: NameSet)
        ensures
            set@ == Set::<Seq<char>>::empty(),
    {
        let set = NameSet { names: Vec::new() };
        assert(set@ =~= Set::<Seq<char>>::empty());
        set
    }

    /// Whether `name` is in the set.
    pub fn contains(&self, name: &str) -> (found: bool)
        ensures
            found == self@.contains(name@),
    {
        let mut i: usize = 0;
        while i < self.names.len()
            invariant
                0 <= i <= self.names.len(),
                forall|k: int| 0 <= k < i ==> (#[trigger] self.names@[k])@ != name@,
            decreases self.names.len() - i,
        {
            if str_eq(self.names[i].as_str(), name) {
                return true;
            }
            i += 1;
        }
        false
    }

    /// Adds `name` to the set.
    pub fn insert(&mut self, name: String)
        ensures
            final(self)@ == old(self)@.insert(name@),
    {
        let ghost before = self.names@;
        self.names.push(name);
        assert forall|n: Seq<char>| self@.contains(n) == old(self)@.insert(name@).contains(n) by {
            if self@.contains(n) {
                let i = choose|i: int| 0 <= i < self.names@.len() && (#[trigger] self.names@[i])@ == n;
                if i < before.len() {
                    assert(before[i]@ == n);
                }
            }
            if old(self)@.contains(n) {
                let i = choose|i: int| 0 <= i < before.len() && (#[trigger] before[i])@ == n;
                assert(self.names@[i]@ == n);
            }
            if n == name@ {
                assert(self.names@[before.len() as int]@ == n);
            }
        }
        assert(self@ =~= old(self)@.insert(name@));
    }
}

impl Clone for NameSet {
    fn clone(&self) -> (copy: Self)
        ensures
            copy@ == self@,
    {
        let mut names: Vec<String> = Vec::new();
        let mut i: usize = 0;
        while i < self.names.len()
            invariant
                0 <= i <= self.names.len(),
                names@.len() == i,
                forall|k: int| 0 <= k < i ==> (#[trigger] names@[k])@ == self.names@[k]@,
            decreases self.names.len() - i,
        {
            names.push(self.names[i].clone());
            i += 1;
        }
        let copy = NameSet { names };
        assert forall|n: Seq<char>| copy@.contains(n) == self@.contains(n) by {
            if copy@.contains(n) {
                let i = choose|i: int| 0 <= i < copy.names@.len() && (#[trigger] copy.names@[i])@ == n;
                assert(self.names@[i]@ == n);
            }
            if self@.contains(n) {
                let i = choose|i: int| 0 <= i < self.names@.len() && (#[trigger] self.names@[i])@ == n;
                assert(copy.names@[i]@ == n);
            }
        }
        assert(copy@ =~= self@);
        copy
    }
}

} // verus!
