//! The lexical scope chain: a stack of variable-binding frames consulted
//! during expression compilation. Lookup walks frames innermost-first, so
//! inner declarations shadow outer ones of the same name, and every local
//! shadows every global item.

use vstd::prelude::*;

use crate::text::str_eq;

verus! {

/// The mathematical value of one binding.
pub struct BindingView {
    pub name: Seq<char>,
    pub slot: usize,
}

/// One variable binding: a name and its storage-slot descriptor.
#[derive(Debug)]
pub struct Binding {
    pub name: String,
    pub slot: usize,
}

impl View for Binding {
    type V = BindingView;

    open spec fn view(&self) -> BindingView {
        BindingView { name: self.name@, slot: self.slot }
    }
}

/// The binding a single frame gives a name: the latest declaration wins,
/// so re-declaring a name within one frame shadows the earlier slot.
pub open spec fn frame_lookup(frame: Seq<BindingView>, name: Seq<char>) -> Option<usize>
    decreases frame.len(),
{
    if frame.len() == 0 {
        None
    } else if frame.last().name == name {
        Some(frame.last().slot)
    } else {
        frame_lookup(frame.drop_last(), name)
    }
}

/// The binding the whole chain gives a name: the innermost frame that
/// binds it wins.
pub open spec fn chain_lookup(frames: Seq<Seq<BindingView>>, name: Seq<char>) -> Option<usize>
    decreases frames.len(),
{
    if frames.len() == 0 {
        None
    } else {
        match frame_lookup(frames.last(), name) {
            Some(slot) => Some(slot),
            None => chain_lookup(frames.drop_last(), name),
        }
    }
}

/// A stack of lexical binding frames, one per currently-open block,
/// function or closure, innermost last.
#[derive(Debug)]
pub struct ScopeChain {
    frames: Vec<Vec<Binding>>,
}

impl View for ScopeChain {
    type V = Seq<Seq<BindingView>>;

    closed spec fn view(&self) -> Seq<Seq<BindingView>> {
        self.frames@.map_values(|f: Vec<Binding>| f@.map_values(|b: Binding| b@))
    }
}

impl ScopeChain {
    /// A chain with no open frame.
    pub fn new() -> (r: ScopeChain)
        ensures
            r@ == Seq::<Seq<BindingView>>::empty(),
    {
        let r = ScopeChain { frames: Vec::new() };
        proof {
            assert(r@ =~= Seq::<Seq<BindingView>>::empty());
        }
        r
    }

    /// The number of open frames.
    pub fn depth(&self) -> (r: usize)
        ensures
            r == self@.len(),
    {
        self.frames.len()
    }

    /// Open a frame on entering a lexical block, function or closure.
    pub fn push_frame(&mut self)
        ensures
            final(self)@ == old(self)@.push(Seq::<BindingView>::empty()),
    {
        self.frames.push(Vec::new());
        proof {
            assert(self@ =~~= old(self)@.push(Seq::<BindingView>::empty()));
        }
    }

    /// Close the innermost frame on leaving its construct; release happens
    /// on every exit path, including compilation failure.
    pub fn pop_frame(&mut self)
        requires
            old(self)@.len() > 0,
        ensures
            final(self)@ == old(self)@.drop_last(),
    {
        self.frames.pop();
        proof {
            assert(self@ =~= old(self)@.drop_last());
        }
    }

    /// Bind a name to a storage slot in the innermost frame. A name
    /// already declared in that frame is shadowed within it.
    pub fn declare(&mut self, name: &str, slot: usize)
        requires
            old(self)@.len() > 0,
        ensures
            final(self)@ == old(self)@.update(
                old(self)@.len() - 1,
                old(self)@.last().push(BindingView { name: name@, slot }),
            ),
    {
        let end = self.frames.len() - 1;
        let frame = &mut self.frames[end];
        frame.push(Binding { name: name.to_owned(), slot });
        proof {
            assert(self@ =~~= old(self)@.update(
                old(self)@.len() - 1,
                old(self)@.last().push(BindingView { name: name@, slot }),
            ));
        }
    }

    /// Find the nearest binding of a name, walking frames innermost-first.
    /// Absence is a normal outcome; the chain is never changed.
    pub fn lookup(&self, name: &str) -> (r: Option<usize>)
        ensures
            r == chain_lookup(self@, name@),
    {
        let mut fi: usize = self.frames.len();
        proof {
            assert(self@.take(fi as int) =~= self@);
        }
        while fi > 0
            invariant
                fi <= self@.len(),
                chain_lookup(self@, name@) == chain_lookup(self@.take(fi as int), name@),
            decreases fi,
        {
            fi = fi - 1;
            let frame = &self.frames[fi];
            let mut bi: usize = frame.len();
            proof {
                assert(self@.take(fi + 1).drop_last() =~= self@.take(fi as int));
                assert(self@.take(fi + 1).last() == self@[fi as int]);
                assert(self@[fi as int].take(bi as int) =~= self@[fi as int]);
            }
            while bi > 0
                invariant
                    bi <= self@[fi as int].len(),
                    fi < self@.len(),
                    frame == self.frames@[fi as int],
                    frame_lookup(self@[fi as int], name@) == frame_lookup(
                        self@[fi as int].take(bi as int),
                        name@,
                    ),
                    chain_lookup(self@, name@) == chain_lookup(self@.take(fi + 1), name@),
                decreases bi,
            {
                bi = bi - 1;
                proof {
                    assert(self@[fi as int].take(bi + 1).drop_last() =~= self@[fi as int].take(
                        bi as int,
                    ));
                    assert(self@[fi as int].take(bi + 1).last() == self@[fi as int][bi as int]);
                }
                if str_eq(frame[bi].name.as_str(), name) {
                    proof {
                        assert(frame_lookup(self@[fi as int].take(bi + 1), name@) == Some(
                            frame@[bi as int].slot,
                        ));
                        assert(chain_lookup(self@.take(fi + 1), name@) == Some(
                            frame@[bi as int].slot,
                        ));
                        assert(chain_lookup(self@, name@) == chain_lookup(
                            self@.take(fi + 1),
                            name@,
                        ));
                    }
                    return Some(frame[bi].slot);
                }
            }
            proof {
                assert(self@[fi as int].take(0) =~= Seq::<BindingView>::empty());
            }
        }
        proof {
            assert(self@.take(0) =~= Seq::<Seq<BindingView>>::empty());
        }
        None
    }
}

} // verus!
