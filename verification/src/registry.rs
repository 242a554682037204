//! The column registry: the fixed set of column names a store recognizes.
//!
//! The set is supplied once, when the store is opened, and never changes
//! afterward; validation is a pure lookup.

use vstd::prelude::*;

verus! {

/// The set of names that a sequence of column names denotes.
pub open spec fn column_set(cols: Seq<String>) -> Set<Seq<char>> {
    Set::new(|c: Seq<char>| exists|i: int| 0 <= i < cols.len() && cols[i]@ == c)
}

/// The registry of recognized column names, immutable after construction.
pub struct Registry {
    columns: Vec<String>,
}

impl Registry {
    /// Builds the registry from the caller-supplied names. An empty list is
    /// legal; every column check will then fail.
    pub fn new(columns: Vec<String>) -> (r: Self)
        ensures
            r@ == column_set(columns@),
    {
        Registry { columns }
    }

    /// Whether `name` is a recognized column. Pure lookup, no side effects.
    pub fn is_known(&self, name: &str) -> (r: bool)
        ensures
            r == self@.contains(name@),
    {
        let owned: String = name.to_owned();
        let mut i: usize = 0;
        while i < self.columns.len()
            invariant
                i <= self.columns@.len(),
                owned@ == name@,
                forall|j: int| 0 <= j < i ==> self.columns@[j]@ != name@,
            decreases self.columns@.len() - i,
        {
            if self.columns[i] == owned {
                proof {
                    assert(self.columns@[i as int]@ == name@);
                }
                return true;
            }
            i = i + 1;
        }
        false
    }
}

impl View for Registry {
    type V = Set<Seq<char>>;

    closed spec fn view(&self) -> Set<Seq<char>> {
        column_set(self.columns@)
    }
}

} // verus!
