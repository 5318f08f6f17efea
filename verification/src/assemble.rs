//! The name resolver and expression assembler: compiles a parsed
//! reference expression (a bare identifier, a qualified path, or the
//! reserved receiver) into emitted instructions, honoring a demand signal
//! so that no dead value-producing code is emitted. Locals shadow global
//! items; what resolves to neither is classified into distinct
//! diagnostics by a documented casing heuristic.

use vstd::pervasive::unreached;
use vstd::prelude::*;

use crate::item::{item_eq, Component, ComponentView, Item};
use crate::scopes::{chain_lookup, frame_lookup, BindingView, ScopeChain};
use crate::span::Span;
use crate::text::{is_lowercase_leading, lowercase_leading};

verus! {

/// The demand signal attached to an expression at assembly time: must the
/// expression leave a value behind, or do only its side effects matter?
#[derive(Clone, Copy, PartialEq, Eq, Structural, Debug)]
pub enum Needs {
    Value,
    Discard,
}

/// The tag of a resolved global item, distinguishing what the global
/// index found under a path.
#[derive(Clone, Copy, PartialEq, Eq, Structural, Debug)]
pub enum MetaKind {
    Function,
    Constant,
    Type,
    Variant,
    Module,
}

/// The mathematical value of one emitted instruction.
pub enum InstView {
    CopyVar { offset: usize },
    LoadMeta { item: Seq<ComponentView>, kind: MetaKind },
}

/// One emitted instruction: copy a local binding's value into place, or
/// materialize the global item found under a path.
#[derive(Debug)]
pub enum Inst {
    CopyVar { offset: usize },
    LoadMeta { item: Item, kind: MetaKind },
}

impl View for Inst {
    type V = InstView;

    open spec fn view(&self) -> InstView {
        match self {
            Inst::CopyVar { offset } => InstView::CopyVar { offset: *offset },
            Inst::LoadMeta { item, kind } => InstView::LoadMeta { item: item@, kind: *kind },
        }
    }
}

/// The append-only instruction sink the assembler emits into.
#[derive(Debug)]
pub struct Emitter {
    instructions: Vec<Inst>,
}

impl View for Emitter {
    type V = Seq<InstView>;

    closed spec fn view(&self) -> Seq<InstView> {
        self.instructions@.map_values(|i: Inst| i@)
    }
}

impl Emitter {
    /// An empty instruction sink.
    pub fn new() -> (r: Emitter)
        ensures
            r@ == Seq::<InstView>::empty(),
    {
        let r = Emitter { instructions: Vec::new() };
        proof {
            assert(r@ =~= Seq::<InstView>::empty());
        }
        r
    }

    /// Append one instruction.
    pub fn push(&mut self, inst: Inst)
        ensures
            final(self)@ == old(self)@.push(inst@),
    {
        let ghost iv = inst@;
        self.instructions.push(inst);
        proof {
            assert(self@ =~= old(self)@.push(iv));
        }
    }

    /// The number of emitted instructions.
    pub fn len(&self) -> (r: usize)
        ensures
            r == self@.len(),
    {
        self.instructions.len()
    }

    /// Borrow the instruction at a position.
    pub fn get(&self, i: usize) -> (r: &Inst)
        requires
            i < self@.len(),
        ensures
            r@ == self@[i as int],
    {
        &self.instructions[i]
    }
}

/// The mathematical value of one global-index registration.
pub struct MetaEntryView {
    pub item: Seq<ComponentView>,
    pub kind: MetaKind,
}

/// One registration in the global item index.
#[derive(Debug)]
pub struct MetaEntry {
    pub item: Item,
    pub kind: MetaKind,
}

impl View for MetaEntry {
    type V = MetaEntryView;

    open spec fn view(&self) -> MetaEntryView {
        MetaEntryView { item: self.item@, kind: self.kind }
    }
}

/// The tag the index gives a path: that of its earliest registration
/// under the path, if any.
pub open spec fn index_lookup(entries: Seq<MetaEntryView>, item: Seq<ComponentView>) -> Option<
    MetaKind,
>
    decreases entries.len(),
{
    if entries.len() == 0 {
        None
    } else if entries.first().item == item {
        Some(entries.first().kind)
    } else {
        index_lookup(entries.drop_first(), item)
    }
}

/// The global item index: what fully-qualified paths the surrounding
/// compiler has registered, and under which tag.
#[derive(Debug)]
pub struct MetaIndex {
    entries: Vec<MetaEntry>,
}

impl View for MetaIndex {
    type V = Seq<MetaEntryView>;

    closed spec fn view(&self) -> Seq<MetaEntryView> {
        self.entries@.map_values(|e: MetaEntry| e@)
    }
}

impl MetaIndex {
    /// An index with no registrations.
    pub fn new() -> (r: MetaIndex)
        ensures
            r@ == Seq::<MetaEntryView>::empty(),
    {
        let r = MetaIndex { entries: Vec::new() };
        proof {
            assert(r@ =~= Seq::<MetaEntryView>::empty());
        }
        r
    }

    /// Register a path under a tag.
    pub fn insert(&mut self, item: Item, kind: MetaKind)
        ensures
            final(self)@ == old(self)@.push(MetaEntryView { item: item@, kind }),
    {
        let ghost ev = MetaEntryView { item: item@, kind };
        self.entries.push(MetaEntry { item, kind });
        proof {
            assert(self@ =~= old(self)@.push(ev));
        }
    }

    /// Look a path up; absence is a normal outcome.
    pub fn resolve(&self, item: &Item) -> (r: Option<MetaKind>)
        ensures
            r == index_lookup(self@, item@),
    {
        let n = self.entries.len();
        let mut i: usize = 0;
        proof {
            assert(self@.skip(0) =~= self@);
        }
        while i < n
            invariant
                i <= n,
                n == self@.len(),
                index_lookup(self@, item@) == index_lookup(self@.skip(i as int), item@),
            decreases n - i,
        {
            proof {
                assert(self@.skip(i as int).first() == self@[i as int]);
                assert(self@.skip(i as int).drop_first() =~= self@.skip(i + 1));
            }
            if item_eq(&self.entries[i].item, item) {
                return Some(self.entries[i].kind);
            }
            i = i + 1;
        }
        None
    }
}

/// The mathematical value of a parsed reference.
pub enum PathKindView {
    SelfValue,
    Segments(Seq<Seq<char>>),
}

/// The shape of a parsed reference: the reserved receiver, or a sequence
/// of path segments (one segment for a bare identifier).
#[derive(Debug)]
pub enum PathKind {
    SelfValue,
    Segments(Vec<String>),
}

impl View for PathKind {
    type V = PathKindView;

    open spec fn view(&self) -> PathKindView {
        match self {
            PathKind::SelfValue => PathKindView::SelfValue,
            PathKind::Segments(v) => PathKindView::Segments(v@.map_values(|s: String| s@)),
        }
    }
}

/// A parsed reference expression, with the source span diagnostics are
/// attached to.
#[derive(Debug)]
pub struct Path {
    pub span: Span,
    pub kind: PathKind,
}

/// The resolved form of a parsed reference: the fully-qualified item it
/// denotes once import aliasing is out of the way.
#[derive(Debug)]
pub struct Named {
    pub item: Item,
}

/// The qualified item a reference's segments denote.
pub open spec fn segments_item(segs: Seq<Seq<char>>) -> Seq<ComponentView> {
    segs.map_values(|s: Seq<char>| ComponentView::Str(s))
}

/// The qualified item a parsed reference denotes; the reserved receiver
/// denotes no item.
pub open spec fn path_item(kind: PathKindView) -> Seq<ComponentView> {
    match kind {
        PathKindView::SelfValue => Seq::empty(),
        PathKindView::Segments(segs) => segments_item(segs),
    }
}

/// The bare local name a resolved reference reduces to: a single
/// unqualified textual segment, and nothing else.
pub open spec fn named_local(item: Seq<ComponentView>) -> Option<Seq<char>> {
    if item.len() == 1 {
        match item[0] {
            ComponentView::Str(name) => Some(name),
            ComponentView::Id(_) => None,
        }
    } else {
        None
    }
}

/// The local binding a resolved reference reaches: its bare name looked
/// up in the scope chain.
pub open spec fn local_binding(
    item: Seq<ComponentView>,
    frames: Seq<Seq<BindingView>>,
) -> Option<usize> {
    match named_local(item) {
        Some(name) => chain_lookup(frames, name),
        None => None,
    }
}

/// The mathematical value of a diagnostic kind.
pub enum CompileErrorKindView {
    MissingLocal { name: Seq<char> },
    MissingItem { item: Seq<ComponentView> },
}

/// Why a reference failed to resolve: a bare lowercase-leading identifier
/// bound nowhere (the user probably meant a variable), or a qualified or
/// capitalized reference matching no global item.
#[derive(Debug)]
pub enum CompileErrorKind {
    MissingLocal { name: String },
    MissingItem { item: Item },
}

impl View for CompileErrorKind {
    type V = CompileErrorKindView;

    open spec fn view(&self) -> CompileErrorKindView {
        match self {
            CompileErrorKind::MissingLocal { name } => CompileErrorKindView::MissingLocal {
                name: name@,
            },
            CompileErrorKind::MissingItem { item } => CompileErrorKindView::MissingItem {
                item: item@,
            },
        }
    }
}

/// A compile diagnostic: what went wrong, and where.
#[derive(Debug)]
pub struct CompileError {
    pub span: Span,
    pub kind: CompileErrorKind,
}

/// The state the assembler works against: the lexical scope chain, the
/// global item index, and the instruction sink.
#[derive(Debug)]
pub struct Compiler {
    pub scopes: ScopeChain,
    pub index: MetaIndex,
    pub emitter: Emitter,
}

/// What resolving a reference emits, or which diagnostic it produces,
/// following the fixed precedence: the reserved receiver first, then the
/// local fast path, then the global item index, and last the casing
/// heuristic over what is left unresolved. Locals are preferred even when
/// no value is needed, for consistency; the copy itself is emitted only
/// on demand.
pub open spec fn resolve_spec(
    kind: PathKindView,
    frames: Seq<Seq<BindingView>>,
    index: Seq<MetaEntryView>,
    needs: Needs,
) -> Result<Seq<InstView>, CompileErrorKindView> {
    match kind {
        PathKindView::SelfValue => {
            if needs is Value {
                Ok(seq![InstView::CopyVar { offset: chain_lookup(frames, "self"@)->Some_0 }])
            } else {
                Ok(Seq::empty())
            }
        },
        PathKindView::Segments(segs) => {
            let item = segments_item(segs);
            if local_binding(item, frames) is Some {
                if needs is Value {
                    Ok(seq![InstView::CopyVar { offset: local_binding(item, frames)->Some_0 }])
                } else {
                    Ok(Seq::empty())
                }
            } else if index_lookup(index, item) is Some {
                if needs is Value {
                    Ok(
                        seq![
                            InstView::LoadMeta {
                                item,
                                kind: index_lookup(index, item)->Some_0,
                            },
                        ],
                    )
                } else {
                    Ok(Seq::empty())
                }
            } else if named_local(item) is Some && is_lowercase_leading(
                named_local(item)->Some_0,
            ) {
                Err(CompileErrorKindView::MissingLocal { name: named_local(item)->Some_0 })
            } else {
                Err(CompileErrorKindView::MissingItem { item })
            }
        },
    }
}

/// Resolve a reference's segments into the qualified item they denote.
pub fn to_named(segments: &Vec<String>) -> (r: Named)
    ensures
        r.item@ == segments_item(PathKind::Segments(*segments)@->Segments_0),
{
    let n = segments.len();
    let mut item = Item::new();
    let mut i: usize = 0;
    while i < n
        invariant
            i <= n,
            n == segments@.len(),
            item@ == segments@.take(i as int).map_values(
                |s: String| ComponentView::Str(s@),
            ),
        decreases n - i,
    {
        item.push(Component::Str(segments[i].clone()));
        proof {
            assert(item@ =~= segments@.take(i + 1).map_values(
                |s: String| ComponentView::Str(s@),
            ));
        }
        i = i + 1;
    }
    proof {
        assert(segments@.take(n as int) =~= segments@);
        assert(segments@.map_values(|s: String| ComponentView::Str(s@)) =~= segments_item(
            PathKind::Segments(*segments)@->Segments_0,
        ));
    }
    Named { item }
}

impl Named {
    /// The bare local name this reference reduces to, if it does.
    pub fn as_local(&self) -> (r: Option<&String>)
        ensures
            match named_local(self.item@) {
                Some(name) => r is Some && r->Some_0@ == name,
                None => r is None,
            },
    {
        if self.item.len() == 1 {
            match self.item.get(0) {
                Component::Str(s) => Some(s),
                Component::Id(_) => None,
            }
        } else {
            None
        }
    }
}

impl Path {
    /// Compile this reference: resolve it against the scope chain, then
    /// the global item index, and emit what the demand signal asks for —
    /// or emit nothing and report a diagnostic against this span. The
    /// scope chain and the index are never changed; on failure the sink
    /// is untouched. The surrounding compiler guarantees the reserved
    /// receiver is bound whenever it occurs.
    pub fn assemble(&self, c: &mut Compiler, needs: Needs) -> (r: Result<(), CompileError>)
        requires
            self.kind is SelfValue ==> chain_lookup(old(c).scopes@, "self"@) is Some,
        ensures
            final(c).scopes@ == old(c).scopes@,
            final(c).index@ == old(c).index@,
            match resolve_spec(self.kind@, old(c).scopes@, old(c).index@, needs) {
                Ok(insts) => r is Ok && final(c).emitter@ == old(c).emitter@ + insts,
                Err(k) => match r {
                    Ok(_) => false,
                    Err(e) => e.kind@ == k && e.span == self.span && final(c).emitter@ == old(
                        c,
                    ).emitter@,
                },
            },
    {
        let span = self.span;
        match &self.kind {
            PathKind::SelfValue => {
                match c.scopes.lookup("self") {
                    Some(offset) => {
                        if matches!(needs, Needs::Value) {
                            c.emitter.push(Inst::CopyVar { offset });
                            proof {
                                assert(c.emitter@ =~= old(c).emitter@ + seq![
                                    InstView::CopyVar { offset },
                                ]);
                            }
                        } else {
                            proof {
                                assert(c.emitter@ =~= old(c).emitter@ + Seq::<InstView>::empty());
                            }
                        }
                        Ok(())
                    },
                    None => unreached(),
                }
            },
            PathKind::Segments(segments) => {
                let named = to_named(segments);
                let local_hit: Option<usize> = match named.as_local() {
                    Some(local) => c.scopes.lookup(local.as_str()),
                    None => Option::None,
                };
                if let Some(offset) = local_hit {
                    if matches!(needs, Needs::Value) {
                        c.emitter.push(Inst::CopyVar { offset });
                        proof {
                            assert(c.emitter@ =~= old(c).emitter@ + seq![
                                InstView::CopyVar { offset },
                            ]);
                        }
                    } else {
                        proof {
                            assert(c.emitter@ =~= old(c).emitter@ + Seq::<InstView>::empty());
                        }
                    }
                    return Ok(());
                }
                match c.index.resolve(&named.item) {
                    Some(kind) => {
                        if matches!(needs, Needs::Value) {
                            let ghost iv = InstView::LoadMeta { item: named.item@, kind };
                            c.emitter.push(Inst::LoadMeta { item: named.item, kind });
                            proof {
                                assert(c.emitter@ =~= old(c).emitter@ + seq![iv]);
                            }
                        } else {
                            proof {
                                assert(c.emitter@ =~= old(c).emitter@ + Seq::<InstView>::empty());
                            }
                        }
                        Ok(())
                    },
                    None => {
                        let classify_local: bool = match named.as_local() {
                            Some(local) => lowercase_leading(local.as_str()),
                            None => false,
                        };
                        if classify_local {
                            let name: String = match named.as_local() {
                                Some(local) => local.clone(),
                                None => unreached(),
                            };
                            Err(
                                CompileError {
                                    span,
                                    kind: CompileErrorKind::MissingLocal { name },
                                },
                            )
                        } else {
                            Err(
                                CompileError {
                                    span,
                                    kind: CompileErrorKind::MissingItem { item: named.item },
                                },
                            )
                        }
                    },
                }
            },
        }
    }
}

/// Law: a bare name bound in the innermost frame resolves, when a value
/// is needed, to a copy of that binding — whatever the global item index
/// holds. Locals take unconditional precedence, so the index is never
/// consulted.
pub proof fn lemma_local_shadows_global(
    kind: PathKindView,
    frames: Seq<Seq<BindingView>>,
    index_a: Seq<MetaEntryView>,
    index_b: Seq<MetaEntryView>,
)
    requires
        kind is Segments,
        named_local(path_item(kind)) is Some,
        frames.len() > 0,
        frame_lookup(frames.last(), named_local(path_item(kind))->Some_0) is Some,
    ensures
        resolve_spec(kind, frames, index_a, Needs::Value) == resolve_spec(
            kind,
            frames,
            index_b,
            Needs::Value,
        ),
        resolve_spec(kind, frames, index_a, Needs::Value) == Ok::<
            Seq<InstView>,
            CompileErrorKindView,
        >(
            seq![
                InstView::CopyVar {
                    offset: chain_lookup(frames, named_local(path_item(kind))->Some_0)->Some_0,
                },
            ],
        ),
{
    let name = named_local(path_item(kind))->Some_0;
    assert(chain_lookup(frames, name) == Some(frame_lookup(frames.last(), name)->Some_0));
}

/// Law: when no value is needed, a successfully resolved pure reference
/// expression emits zero value-producing instructions.
pub proof fn lemma_needs_discard_emits_nothing(
    kind: PathKindView,
    frames: Seq<Seq<BindingView>>,
    index: Seq<MetaEntryView>,
)
    ensures
        resolve_spec(kind, frames, index, Needs::Discard) is Ok ==> resolve_spec(
            kind,
            frames,
            index,
            Needs::Discard,
        )->Ok_0 == Seq::<InstView>::empty(),
{
}

/// Law: a reference that resolves to neither a local binding nor a
/// global item is classified by its shape alone: a bare lowercase-leading
/// name is reported as a missing local variable under exactly that name;
/// any other unresolved reference is reported as a missing item under its
/// reconstructed path.
pub proof fn lemma_unresolved_classification(
    kind: PathKindView,
    frames: Seq<Seq<BindingView>>,
    index: Seq<MetaEntryView>,
    needs: Needs,
)
    requires
        kind is Segments,
        index_lookup(index, path_item(kind)) is None,
        local_binding(path_item(kind), frames) is None,
    ensures
        resolve_spec(kind, frames, index, needs) == if named_local(path_item(kind)) is Some
            && is_lowercase_leading(named_local(path_item(kind))->Some_0) {
            Err::<Seq<InstView>, CompileErrorKindView>(
                CompileErrorKindView::MissingLocal { name: named_local(path_item(kind))->Some_0 },
            )
        } else {
            Err::<Seq<InstView>, CompileErrorKindView>(
                CompileErrorKindView::MissingItem { item: path_item(kind) },
            )
        },
{
}

} // verus!
