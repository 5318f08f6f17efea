//! Items and their components: the fully-qualified paths that identify
//! compiled constructs. A component is either a textual name or the
//! ordinal of an anonymous nesting level (a block or closure that has no
//! name of its own).

use vstd::prelude::*;

verus! {

/// The mathematical value of one path component.
pub enum ComponentView {
    Str(Seq<char>),
    Id(usize),
}

/// One path segment: a textual name or an anonymous-scope ordinal.
#[derive(Debug)]
pub enum Component {
    Str(String),
    Id(usize),
}

impl View for Component {
    type V = ComponentView;

    open spec fn view(&self) -> ComponentView {
        match self {
            Component::Str(s) => ComponentView::Str(s@),
            Component::Id(n) => ComponentView::Id(*n),
        }
    }
}

impl Component {
    /// The ordinal carried by an anonymous component, if this is one.
    pub fn id(&self) -> (r: Option<usize>)
        ensures
            match self@ {
                ComponentView::Id(n) => r == Some(n),
                ComponentView::Str(_) => r is None,
            },
    {
        match self {
            Component::Id(n) => Some(*n),
            Component::Str(_) => None,
        }
    }
}

/// A fully-qualified path: the sequence of components leading to a
/// compiled construct.
#[derive(Debug)]
pub struct Item {
    components: Vec<Component>,
}

impl View for Item {
    type V = Seq<ComponentView>;

    closed spec fn view(&self) -> Seq<ComponentView> {
        self.components@.map_values(|c: Component| c@)
    }
}

impl Item {
    /// The empty path.
    pub fn new() -> (r: Item)
        ensures
            r@ == Seq::<ComponentView>::empty(),
    {
        let r = Item { components: Vec::new() };
        proof {
            assert(r@ =~= Seq::<ComponentView>::empty());
        }
        r
    }

    /// Append one component.
    pub fn push(&mut self, c: Component)
        ensures
            final(self)@ == old(self)@.push(c@),
    {
        let ghost cv = c@;
        self.components.push(c);
        proof {
            assert(self@ =~= old(self)@.push(cv));
        }
    }

    /// Remove and return the last component, if any.
    pub fn pop(&mut self) -> (r: Option<Component>)
        ensures
            old(self)@.len() == 0 ==> r is None && final(self)@ == old(self)@,
            old(self)@.len() > 0 ==> match r {
                Some(c) => c@ == old(self)@.last() && final(self)@ == old(self)@.drop_last(),
                None => false,
            },
    {
        let r = self.components.pop();
        proof {
            if old(self).components@.len() > 0 {
                assert(self@ =~= old(self)@.drop_last());
            } else {
                assert(self@ =~= old(self)@);
            }
        }
        r
    }

    /// Borrow the last component, if any.
    pub fn last(&self) -> (r: Option<&Component>)
        ensures
            self@.len() == 0 ==> r is None,
            self@.len() > 0 ==> match r {
                Some(c) => c@ == self@.last(),
                None => false,
            },
    {
        if self.components.len() == 0 {
            None
        } else {
            Some(&self.components[self.components.len() - 1])
        }
    }

    /// True if the path has no components.
    pub fn is_empty(&self) -> (r: bool)
        ensures
            r == (self@.len() == 0),
    {
        self.components.is_empty()
    }

    /// The number of components.
    pub fn len(&self) -> (r: usize)
        ensures
            r == self@.len(),
    {
        self.components.len()
    }

    /// Borrow the component at a position.
    pub fn get(&self, i: usize) -> (r: &Component)
        requires
            i < self@.len(),
        ensures
            r@ == self@[i as int],
    {
        &self.components[i]
    }
}

/// Compare two components by their mathematical values.
pub fn component_eq(a: &Component, b: &Component) -> (r: bool)
    ensures
        r == (a@ == b@),
{
    match (a, b) {
        (Component::Str(x), Component::Str(y)) => crate::text::str_eq(x.as_str(), y.as_str()),
        (Component::Id(x), Component::Id(y)) => *x == *y,
        _ => false,
    }
}

/// Compare two paths by their mathematical values.
pub fn item_eq(a: &Item, b: &Item) -> (r: bool)
    ensures
        r == (a@ == b@),
{
    let alen = a.len();
    if alen != b.len() {
        proof {
            assert(a@ != b@);
        }
        return false;
    }
    let mut i: usize = 0;
    while i < alen
        invariant
            i <= alen,
            alen == a@.len(),
            alen == b@.len(),
            forall|k: int| 0 <= k < i ==> a@[k] == b@[k],
        decreases alen - i,
    {
        if !component_eq(a.get(i), b.get(i)) {
            proof {
                assert(a@[i as int] != b@[i as int]);
            }
            return false;
        }
        i = i + 1;
    }
    proof {
        assert(a@ =~= b@);
    }
    true
}

} // verus!
