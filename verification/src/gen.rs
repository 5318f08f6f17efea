//! The generation counter: a per-compilation-context source of opaque
//! identity tokens, handed out once per syntax-tree node that needs an
//! identity independent of its lexical position.

use vstd::prelude::*;

verus! {

/// An opaque identity token. Two tokens minted by the same [`Gen`] are
/// never equal.
#[derive(Clone, Copy, PartialEq, Eq, Structural, Debug, Hash)]
pub struct Id(pub usize);

/// A monotonic counter minting fresh [`Id`] tokens. Each compilation
/// context owns its own instance, so independent compilations never
/// interact.
#[derive(Debug)]
pub struct Gen {
    counter: usize,
}

impl View for Gen {
    type V = usize;

    closed spec fn view(&self) -> usize {
        self.counter
    }
}

impl Gen {
    /// Construct a fresh counter that has minted no token yet.
    pub fn new() -> (g: Gen)
        ensures
            g@ == 0,
    {
        Gen { counter: 0 }
    }

    /// Mint the next token: the result was never returned before, and no
    /// later call returns it again.
    pub fn next(&mut self) -> (id: Id)
        requires
            old(self)@ < usize::MAX,
        ensures
            id == Id(old(self)@),
            final(self)@ == old(self)@ + 1,
    {
        let id = Id(self.counter);
        self.counter = self.counter + 1;
        id
    }
}

} // verus!
