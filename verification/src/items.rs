//! The path allocator: builds the hierarchical namespace path as
//! compilation descends into nested scopes, assigning every anonymous
//! nesting level a deterministic, collision-free ordinal. Each descent
//! returns a [`Guard`]; releasing the guards in reverse order of creation
//! restores the path, whether the work under them succeeded or aborted.

use vstd::prelude::*;

use crate::gen::{Gen, Id};
use crate::item::{Component, ComponentView, Item};

verus! {

/// The mathematical state of an [`Items`] allocator.
pub struct ItemsView {
    /// The ordinal the next anonymous sibling will receive.
    pub ordinal: usize,
    /// The path built so far.
    pub item: Seq<ComponentView>,
    /// The identity tokens of the currently-open levels, outermost first.
    pub ids: Seq<Id>,
    /// The generation counter's state.
    pub gen: usize,
}

/// The ordinal the sibling that follows a popped component receives:
/// continuing the count after an anonymous component, restarting at zero
/// after a named one or when the count would overflow.
pub open spec fn next_ordinal(c: ComponentView) -> usize {
    match c {
        ComponentView::Id(n) => if n < usize::MAX {
            (n + 1) as usize
        } else {
            0
        },
        ComponentView::Str(_) => 0,
    }
}

/// The ordinal counter a fresh allocator starts with: the trailing
/// anonymous ordinal of the initial path, or zero.
pub open spec fn initial_ordinal(item: Seq<ComponentView>) -> usize {
    if item.len() > 0 {
        match item.last() {
            ComponentView::Id(n) => n,
            ComponentView::Str(_) => 0,
        }
    } else {
        0
    }
}

/// Manage item paths while descending into nested scopes.
#[derive(Debug)]
pub struct Items {
    ordinal: usize,
    item: Item,
    ids: Vec<Id>,
    gen: Gen,
}

/// A scoped token for one pushed path component. Exactly one guard exists
/// per currently-open nesting level; handing it back to [`Items::pop`]
/// closes that level.
pub struct Guard {
    ids: Ghost<Seq<Id>>,
}

impl View for Guard {
    type V = Seq<Id>;

    closed spec fn view(&self) -> Seq<Id> {
        self.ids@
    }
}

impl View for Items {
    type V = ItemsView;

    closed spec fn view(&self) -> ItemsView {
        ItemsView {
            ordinal: self.ordinal,
            item: self.item@,
            ids: self.ids@,
            gen: self.gen@,
        }
    }
}

impl Items {
    /// The path never holds fewer components than there are open levels.
    pub open spec fn wf(self) -> bool {
        self@.item.len() >= self@.ids.len()
    }

    /// Construct an allocator over an initial path; the anonymous counter
    /// resumes from the path's trailing ordinal, if it ends in one.
    pub fn new(item: Item, gen: Gen) -> (r: Items)
        ensures
            r.wf(),
            r@.item == item@,
            r@.ids == Seq::<Id>::empty(),
            r@.gen == gen@,
            r@.ordinal == initial_ordinal(item@),
    {
        let ordinal: usize = match item.last() {
            Some(c) => match c.id() {
                Some(n) => n,
                None => 0,
            },
            None => 0,
        };
        Items { ordinal, item, ids: Vec::new(), gen }
    }

    /// The identity token of the innermost open level. The surrounding
    /// compiler guarantees a level is open before asking.
    pub fn id(&self) -> (r: Id)
        requires
            self@.ids.len() > 0,
        ensures
            r == self@.ids.last(),
    {
        self.ids[self.ids.len() - 1]
    }

    /// A read-only view of the path built so far.
    pub fn item(&self) -> (r: &Item)
        ensures
            r@ == self@.item,
    {
        &self.item
    }

    /// True if zero nesting levels are currently open. A seeded initial
    /// path does not count: only pushes not yet released do.
    pub fn is_empty(&self) -> (r: bool)
        ensures
            r == (self@.ids.len() == 0),
    {
        self.ids.is_empty()
    }

    /// Open one anonymous nesting level: the new component receives the
    /// current ordinal, and a fresh identity token is minted for it.
    pub fn push_id(&mut self) -> (g: Guard)
        requires
            old(self).wf(),
            old(self)@.gen < usize::MAX,
        ensures
            final(self).wf(),
            final(self)@.item == old(self)@.item.push(ComponentView::Id(old(self)@.ordinal)),
            final(self)@.ordinal == old(self)@.ordinal,
            final(self)@.ids == old(self)@.ids.push(Id(old(self)@.gen)),
            final(self)@.gen == old(self)@.gen + 1,
            g@ == final(self)@.ids,
    {
        let id = self.gen.next();
        self.item.push(Component::Id(self.ordinal));
        self.ids.push(id);
        Guard { ids: Ghost(self.ids@) }
    }

    /// Open one named nesting level: any anonymous siblings that follow it
    /// belong to a fresh counting domain, so the ordinal counter resets.
    pub fn push_name(&mut self, name: &str) -> (g: Guard)
        requires
            old(self).wf(),
            old(self)@.gen < usize::MAX,
        ensures
            final(self).wf(),
            final(self)@.item == old(self)@.item.push(ComponentView::Str(name@)),
            final(self)@.ordinal == 0,
            final(self)@.ids == old(self)@.ids.push(Id(old(self)@.gen)),
            final(self)@.gen == old(self)@.gen + 1,
            g@ == final(self)@.ids,
    {
        let id = self.gen.next();
        self.ordinal = 0;
        self.item.push(Component::Str(name.to_owned()));
        self.ids.push(id);
        Guard { ids: Ghost(self.ids@) }
    }

    /// Close the innermost open level, releasing its guard. Pops exactly
    /// the component and token that level was responsible for; the next
    /// sibling's ordinal continues after an anonymous component and
    /// restarts after a named one. Release is unconditional: it does not
    /// depend on whether the work under the guard succeeded.
    pub fn pop(&mut self, guard: Guard)
        requires
            old(self).wf(),
            old(self)@.ids.len() > 0,
            guard@ == old(self)@.ids,
        ensures
            final(self).wf(),
            final(self)@.item == old(self)@.item.drop_last(),
            final(self)@.ids == old(self)@.ids.drop_last(),
            final(self)@.gen == old(self)@.gen,
            final(self)@.ordinal == next_ordinal(old(self)@.item.last()),
    {
        let popped = self.item.pop();
        let ordinal: usize = match popped {
            Some(Component::Id(n)) => {
                if n < usize::MAX {
                    n + 1
                } else {
                    0
                }
            },
            _ => 0,
        };
        self.ids.pop();
        self.ordinal = ordinal;
    }
}

/// One step a traversal takes on the path: opening a level (either
/// [`Items::push_id`] or [`Items::push_name`], which append the given
/// component) or closing the innermost one ([`Items::pop`], which drops
/// the last component).
pub enum PathStep {
    Push(ComponentView),
    Pop,
}

/// The path after one step.
pub open spec fn step_apply(item: Seq<ComponentView>, step: PathStep) -> Seq<ComponentView> {
    match step {
        PathStep::Push(c) => item.push(c),
        PathStep::Pop => item.drop_last(),
    }
}

/// The path after a sequence of steps.
pub open spec fn apply_steps(item: Seq<ComponentView>, steps: Seq<PathStep>) -> Seq<
    ComponentView,
>
    decreases steps.len(),
{
    if steps.len() == 0 {
        item
    } else {
        apply_steps(step_apply(item, steps.first()), steps.drop_first())
    }
}

/// True if the steps never close more levels than they opened: starting
/// `depth` levels deep, no prefix pops below the starting path.
pub open spec fn steps_ok(depth: int, steps: Seq<PathStep>) -> bool
    decreases steps.len(),
{
    if steps.len() == 0 {
        true
    } else {
        match steps.first() {
            PathStep::Push(_) => steps_ok(depth + 1, steps.drop_first()),
            PathStep::Pop => depth >= 1 && steps_ok(depth - 1, steps.drop_first()),
        }
    }
}

/// The number of levels a step sequence opens.
pub open spec fn count_pushes(steps: Seq<PathStep>) -> int
    decreases steps.len(),
{
    if steps.len() == 0 {
        0
    } else {
        (match steps.first() {
            PathStep::Push(_) => 1int,
            PathStep::Pop => 0int,
        }) + count_pushes(steps.drop_first())
    }
}

/// The number of levels a step sequence closes.
pub open spec fn count_pops(steps: Seq<PathStep>) -> int
    decreases steps.len(),
{
    if steps.len() == 0 {
        0
    } else {
        (match steps.first() {
            PathStep::Push(_) => 0int,
            PathStep::Pop => 1int,
        }) + count_pops(steps.drop_first())
    }
}

/// True if every push is matched by a pop in LIFO order: no prefix closes
/// a level it did not open, and at the end every opened level is closed.
pub open spec fn balanced(steps: Seq<PathStep>) -> bool {
    steps_ok(0, steps) && count_pushes(steps) == count_pops(steps)
}

/// Steps that never dig below the `extra` components stacked on top of a
/// base path leave the base untouched and act on the extension alone.
proof fn lemma_apply_steps_frame(
    base: Seq<ComponentView>,
    extra: Seq<ComponentView>,
    steps: Seq<PathStep>,
)
    requires
        steps_ok(extra.len() as int, steps),
    ensures
        apply_steps(base + extra, steps) == base + apply_steps(extra, steps),
    decreases steps.len(),
{
    if steps.len() == 0 {
    } else {
        match steps.first() {
            PathStep::Push(c) => {
                assert((base + extra).push(c) =~= base + extra.push(c));
                lemma_apply_steps_frame(base, extra.push(c), steps.drop_first());
            },
            PathStep::Pop => {
                assert((base + extra).drop_last() =~= base + extra.drop_last());
                lemma_apply_steps_frame(base, extra.drop_last(), steps.drop_first());
            },
        }
    }
}

/// Steps that stay above the starting path change its length by exactly
/// the surplus of pushes over pops.
proof fn lemma_apply_steps_len(extra: Seq<ComponentView>, steps: Seq<PathStep>)
    requires
        steps_ok(extra.len() as int, steps),
    ensures
        apply_steps(extra, steps).len() == extra.len() + count_pushes(steps) - count_pops(steps),
    decreases steps.len(),
{
    if steps.len() == 0 {
    } else {
        match steps.first() {
            PathStep::Push(c) => {
                lemma_apply_steps_len(extra.push(c), steps.drop_first());
            },
            PathStep::Pop => {
                lemma_apply_steps_len(extra.drop_last(), steps.drop_first());
            },
        }
    }
}

/// Law: any sequence of pushes matched by guard releases in LIFO order
/// returns the path to its value before the first push.
pub proof fn lemma_unwind_round_trip(item: Seq<ComponentView>, steps: Seq<PathStep>)
    requires
        balanced(steps),
    ensures
        apply_steps(item, steps) == item,
{
    let empty = Seq::<ComponentView>::empty();
    assert(item + empty =~= item);
    lemma_apply_steps_frame(item, empty, steps);
    lemma_apply_steps_len(empty, steps);
    assert(apply_steps(empty, steps) =~= empty);
    assert(item + apply_steps(empty, steps) =~= item);
}

/// The ordinals handed to a run of anonymous siblings, each opened with
/// [`Items::push_id`] and closed again, starting from counter value
/// `start`: the first sibling receives `start` itself, and each release
/// advances the counter as [`next_ordinal`] says.
pub open spec fn sibling_ordinals(start: usize, count: nat) -> Seq<usize>
    decreases count,
{
    if count == 0 {
        Seq::empty()
    } else {
        seq![start] + sibling_ordinals(next_ordinal(ComponentView::Id(start)), (count - 1) as nat)
    }
}

/// Law: as long as the counter does not overflow, a run of anonymous
/// siblings visited in sequence receives consecutive ordinals with no
/// gap and no repetition.
pub proof fn lemma_sibling_ordinals_consecutive(start: usize, count: nat)
    requires
        start + count <= usize::MAX,
    ensures
        sibling_ordinals(start, count).len() == count,
        forall|i: int| 0 <= i < count ==> sibling_ordinals(start, count)[i] == start + i,
    decreases count,
{
    if count > 0 {
        lemma_sibling_ordinals_consecutive((start + 1) as usize, (count - 1) as nat);
        let s = sibling_ordinals(start, count);
        let rest = sibling_ordinals((start + 1) as usize, (count - 1) as nat);
        assert forall|i: int| 0 <= i < count implies s[i] == start + i by {
            if i > 0 {
                assert(s[i] == rest[i - 1]);
            }
        }
    }
}

/// Law: under a freshly named parent the counter is zero, so sibling
/// anonymous levels are numbered `0, 1, 2, ...` in visitation order, and
/// no two siblings share an ordinal.
pub proof fn lemma_fresh_domain_ordinals(count: nat)
    requires
        count <= usize::MAX,
    ensures
        sibling_ordinals(0, count).len() == count,
        forall|i: int| 0 <= i < count ==> sibling_ordinals(0, count)[i] == i,
        forall|i: int, j: int|
            0 <= i < count && 0 <= j < count && i != j ==> sibling_ordinals(0, count)[i]
                != sibling_ordinals(0, count)[j],
{
    lemma_sibling_ordinals_consecutive(0, count);
}

} // verus!
