//! The syntax tree a parsed fixture is reduced to.
//!
//! Declared entities live in an arena: a vector of [`Item`]s where index 0
//! is a synthetic root module and every other item records the index of the
//! module that declares it.  Parents always precede their children, which
//! keeps the hierarchy acyclic by construction.  Qualified paths found in
//! function bodies or signatures, and trait names found in bounds or
//! `impl Trait` positions, are collected separately together with the
//! module they were used from.

use vstd::prelude::*;

verus! {

/// Byte range in the fixture source that a token, item or reference
/// came from.
#[derive(Clone, Copy, PartialEq, Eq, Structural, Debug)]
pub struct Span {
    pub lo: usize,
    pub hi: usize,
}

/// What sort of entity an [`Item`] declares.
#[derive(Clone, Copy, PartialEq, Eq, Structural, Debug)]
pub enum ItemKind {
    Module,
    Function,
    TraitDecl,
    TypeAlias,
}

/// One declared entity, held in the arena.
///
/// `exported` records an explicit export marker (`pub`); without it the
/// item is private to its declaring module and that module's descendants.
/// `parent` is the arena index of the declaring module; the root module
/// is its own parent.
#[derive(Clone, Debug)]
pub struct Item {
    pub kind: ItemKind,
    pub name: Vec<u8>,
    pub exported: bool,
    pub parent: usize,
    pub span: Span,
}

/// A qualified path (two or more segments, such as `math::sin`) used in a
/// function body or signature.  `module` is the arena index of the module
/// the use site sits in.
#[derive(Clone, Debug)]
pub struct PathRef {
    pub segs: Vec<Vec<u8>>,
    pub module: usize,
    pub span: Span,
}

/// A trait name written in a generic bound or an `impl Trait` position,
/// together with the module it must be visible from.
#[derive(Clone, Debug)]
pub struct TraitUse {
    pub segs: Vec<Vec<u8>>,
    pub module: usize,
    pub span: Span,
}

/// Everything the parser extracts from one fixture.
pub struct Parsed {
    pub items: Vec<Item>,
    pub paths: Vec<PathRef>,
    pub trait_uses: Vec<TraitUse>,
}

/// The arena invariant: a root module at index 0, and every later item
/// declared by a module that precedes it.
pub open spec fn wf_arena(a: Seq<Item>) -> bool {
    &&& a.len() >= 1
    &&& a[0].kind == ItemKind::Module
    &&& a[0].parent == 0
    &&& forall|i: int|
        1 <= i < a.len() ==> (#[trigger] a[i]).parent < i && a[a[i].parent as int].kind
            == ItemKind::Module
}

/// `m` indexes a module of the arena.
pub open spec fn valid_scope(a: Seq<Item>, m: int) -> bool {
    0 <= m < a.len() && a[m].kind == ItemKind::Module
}

/// The mathematical value of a segment list.
pub open spec fn segs_view(s: Seq<Vec<u8>>) -> Seq<Seq<u8>> {
    s.map_values(|v: Vec<u8>| v@)
}

/// The parser's guarantee: a well-formed arena, and every collected use
/// site anchored at a module of that arena.
pub open spec fn wf_parsed(p: &Parsed) -> bool {
    &&& wf_arena(p.items@)
    &&& forall|i: int|
        0 <= i < p.paths@.len() ==> valid_scope(p.items@, (#[trigger] p.paths@[i]).module as int)
    &&& forall|i: int|
        0 <= i < p.trait_uses@.len() ==> valid_scope(
            p.items@,
            (#[trigger] p.trait_uses@[i]).module as int,
        )
}

/// The mathematical value of one item.
pub struct ItemS {
    pub kind: ItemKind,
    pub name: Seq<u8>,
    pub exported: bool,
    pub parent: int,
    pub span: Span,
}

/// The mathematical value of an item.
pub open spec fn item_view(it: Item) -> ItemS {
    ItemS {
        kind: it.kind,
        name: it.name@,
        exported: it.exported,
        parent: it.parent as int,
        span: it.span,
    }
}

/// The mathematical value of the arena.
pub open spec fn items_view(s: Seq<Item>) -> Seq<ItemS> {
    s.map_values(|it: Item| item_view(it))
}

/// The mathematical value of one path reference.
pub struct PathS {
    pub segs: Seq<Seq<u8>>,
    pub module: int,
    pub span: Span,
}

/// The mathematical value of a path reference.
pub open spec fn path_view(p: PathRef) -> PathS {
    PathS { segs: segs_view(p.segs@), module: p.module as int, span: p.span }
}

/// The mathematical value of the collected paths.
pub open spec fn paths_view(s: Seq<PathRef>) -> Seq<PathS> {
    s.map_values(|p: PathRef| path_view(p))
}

/// The mathematical value of one trait use.
pub struct UseS {
    pub segs: Seq<Seq<u8>>,
    pub module: int,
    pub span: Span,
}

/// The mathematical value of a trait use.
pub open spec fn use_view(t: TraitUse) -> UseS {
    UseS { segs: segs_view(t.segs@), module: t.module as int, span: t.span }
}

/// The mathematical value of the collected trait uses.
pub open spec fn uses_view(s: Seq<TraitUse>) -> Seq<UseS> {
    s.map_values(|t: TraitUse| use_view(t))
}

/// Indexing the arena's value indexes the items.
pub broadcast proof fn lemma_items_view_index(s: Seq<Item>, i: int)
    requires
        0 <= i < s.len(),
    ensures
        (#[trigger] items_view(s)[i]) == item_view(s[i]),
{
}

/// The arena's value has the arena's length.
pub broadcast proof fn lemma_items_view_len(s: Seq<Item>)
    ensures
        (#[trigger] items_view(s)).len() == s.len(),
{
}

/// The mathematical value of a whole parse.
pub struct ParsedS {
    pub items: Seq<ItemS>,
    pub paths: Seq<PathS>,
    pub uses: Seq<UseS>,
}

/// The mathematical value of a [`Parsed`].
pub open spec fn parsed_view(p: &Parsed) -> ParsedS {
    ParsedS {
        items: items_view(p.items@),
        paths: paths_view(p.paths@),
        uses: uses_view(p.trait_uses@),
    }
}

/// Compares two names byte for byte.
pub fn bytes_eq(x: &Vec<u8>, y: &Vec<u8>) -> (r: bool)
    ensures
        r == (x@ == y@),
{
    if x.len() != y.len() {
        return false;
    }
    let n = x.len();
    let mut i: usize = 0;
    while i < n
        invariant
            i <= n,
            n == x@.len() == y@.len(),
            forall|k: int| 0 <= k < i ==> x@[k] == y@[k],
        decreases n - i,
    {
        if x[i] != y[i] {
            return false;
        }
        i = i + 1;
    }
    proof {
        assert(x@ =~= y@);
    }
    true
}

/// Copies a name.
pub fn copy_bytes(x: &Vec<u8>) -> (r: Vec<u8>)
    ensures
        r@ == x@,
{
    let n = x.len();
    let mut r: Vec<u8> = Vec::new();
    let mut i: usize = 0;
    while i < n
        invariant
            i <= n,
            n == x@.len(),
            r@ == x@.take(i as int),
        decreases n - i,
    {
        r.push(x[i]);
        proof {
            assert(r@ =~= x@.take(i + 1));
        }
        i = i + 1;
    }
    proof {
        assert(x@.take(n as int) =~= x@);
    }
    r
}

/// Copies a segment list, preserving its mathematical value.
pub fn copy_segs(x: &Vec<Vec<u8>>) -> (r: Vec<Vec<u8>>)
    ensures
        segs_view(r@) == segs_view(x@),
{
    let n = x.len();
    let mut r: Vec<Vec<u8>> = Vec::new();
    let mut i: usize = 0;
    while i < n
        invariant
            i <= n,
            n == x@.len(),
            r@.len() == i,
            forall|k: int| 0 <= k < i ==> (#[trigger] r@[k])@ == x@[k]@,
        decreases n - i,
    {
        r.push(copy_bytes(&x[i]));
        i = i + 1;
    }
    proof {
        assert(segs_view(r@) =~= segs_view(x@));
    }
    r
}

} // verus!
