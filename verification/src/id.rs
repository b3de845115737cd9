use vstd::prelude::*;

verus! {

/// Identifier of a variable, constant, inductive type or constructor.
#[derive(Debug, Clone, Copy, Hash, PartialEq, Eq, Structural, PartialOrd, Ord)]
pub struct Id(pub usize);

/// Hands out fresh identifiers, counting up from zero.
pub struct IdGenerator {
    next_id: usize,
}

impl IdGenerator {
    /// The identifier that the next call of `generate_id` returns.
    pub closed spec fn next(&self) -> usize {
        self.next_id
    }

    pub fn new() -> (g: IdGenerator)
        ensures
            g.next() == 0,
    {
        IdGenerator { next_id: 0 }
    }

    /// Returns a fresh identifier; successive calls return 0, 1, 2, ...
    pub fn generate_id(&mut self) -> (id: Id)
        requires
            old(self).next() < usize::MAX,
        ensures
            id == Id(old(self).next()),
            final(self).next() == old(self).next() + 1,
    {
        let res = Id(self.next_id);
        self.next_id = self.next_id + 1;
        res
    }
}

impl Default for IdGenerator {
    fn default() -> (g: IdGenerator)
        ensures
            g.next() == 0,
    {
        IdGenerator::new()
    }
}

} // verus!
