//! The scope resolver.
//!
//! Visibility policy, applied consistently everywhere: an item is visible
//! from a use site if it carries an explicit export marker, or if the use
//! site lies in the subtree of the module that declares it (the declaring
//! module itself or any of its descendants).  So private items serve their
//! own module and everything nested inside it, and exported items serve
//! everyone.
//!
//! The resolver's scope is qualified paths — two or more segments —
//! which is what the parser collects; a bare name in a body refers to a
//! local, a parameter or a sibling and is not resolved here.
//!
//! A path `a::b::c` is resolved from the module `u` of its use site: the
//! first segment is looked up in `u` and then in each enclosing module in
//! turn, nearest first; every later segment is looked up among the items
//! of the module found so far and must be visible from `u`.  A segment
//! matched by no item fails as unresolved; one matched by more than one
//! item of a single module fails as ambiguous — the symbol table builder
//! rules that out beforehand, but the resolver checks defensively rather
//! than assume it.

use vstd::prelude::*;

use crate::ast::{copy_segs, segs_view, valid_scope, wf_arena, Item, ItemKind, PathRef};
use crate::errors::{errs_view, CheckError, ErrS};
use crate::symtab::SymTab;

verus! {

/// Item `i` is declared by module `m` (the synthetic root is declared
/// by nobody).
pub open spec fn declared_in(a: Seq<Item>, i: int, m: int) -> bool {
    1 <= i < a.len() && a[i].parent == m
}

/// Item `i` carries `name`.
pub open spec fn named(a: Seq<Item>, i: int, name: Seq<u8>) -> bool {
    a[i].name@ == name
}

/// How many items of module `m`, at arena index `k` or later, carry
/// `name`.
pub open spec fn count_from(a: Seq<Item>, m: int, name: Seq<u8>, k: int) -> nat
    decreases a.len() - k,
{
    if k < 0 || k >= a.len() {
        0
    } else if declared_in(a, k, m) && named(a, k, name) {
        1 + count_from(a, m, name, k + 1)
    } else {
        count_from(a, m, name, k + 1)
    }
}

/// The first item of module `m`, at arena index `k` or later, carrying
/// `name`.
pub open spec fn first_from(a: Seq<Item>, m: int, name: Seq<u8>, k: int) -> Option<int>
    decreases a.len() - k,
{
    if k < 0 || k >= a.len() {
        None
    } else if declared_in(a, k, m) && named(a, k, name) {
        Some(k)
    } else {
        first_from(a, m, name, k + 1)
    }
}

/// The outcome of looking one name up in one module.
pub enum Find {
    Hit(int),
    Miss,
    Multi,
}

/// Looks `name` up among the items module `m` declares.
pub open spec fn lookup_in(a: Seq<Item>, m: int, name: Seq<u8>) -> Find {
    if count_from(a, m, name, 0) >= 2 {
        Find::Multi
    } else {
        match first_from(a, m, name, 0) {
            Some(i) => Find::Hit(i),
            None => Find::Miss,
        }
    }
}

/// Module `c` lies in the subtree rooted at module `m`: it is `m` itself
/// or nested somewhere inside it.
pub open spec fn in_subtree(a: Seq<Item>, m: int, c: int) -> bool
    decreases c,
{
    if c == m {
        true
    } else if c <= 0 || c >= a.len() {
        false
    } else if a[c].parent < c {
        in_subtree(a, m, a[c].parent as int)
    } else {
        false
    }
}

/// The visibility policy: exported items are visible from everywhere;
/// private items are visible from the subtree of their declaring module.
pub open spec fn visible(a: Seq<Item>, i: int, u: int) -> bool {
    a[i].exported || in_subtree(a, a[i].parent as int, u)
}

/// Resolves a path's first segment: the name is looked up in the use
/// site's module and then in each enclosing module outward.
pub open spec fn resolve_base(a: Seq<Item>, u: int, name: Seq<u8>) -> Find
    decreases u,
{
    match lookup_in(a, u, name) {
        Find::Multi => Find::Multi,
        Find::Hit(i) => Find::Hit(i),
        Find::Miss => if u <= 0 || u >= a.len() {
            Find::Miss
        } else if a[u].parent < u {
            resolve_base(a, a[u].parent as int, name)
        } else {
            Find::Miss
        },
    }
}

/// What resolving a whole path yields.
pub enum ResKind {
    Found(int),
    NotFound,
    Ambig,
}

/// Resolves the segments of a path from index `k` on, starting at item
/// `cur`, for a use site in module `u`.  Every step demands a module to
/// look in, a unique match, and visibility from `u`.
pub open spec fn resolve_rest(a: Seq<Item>, u: int, cur: int, segs: Seq<Seq<u8>>, k: int) -> ResKind
    decreases segs.len() - k,
{
    if k >= segs.len() {
        ResKind::Found(cur)
    } else if k < 0 || !(0 <= cur < a.len()) || a[cur].kind != ItemKind::Module {
        ResKind::NotFound
    } else {
        match lookup_in(a, cur, segs[k]) {
            Find::Multi => ResKind::Ambig,
            Find::Miss => ResKind::NotFound,
            Find::Hit(i) => if visible(a, i, u) {
                resolve_rest(a, u, i, segs, k + 1)
            } else {
                ResKind::NotFound
            },
        }
    }
}

/// Resolves a full path from module `u`.
pub open spec fn resolve_path(a: Seq<Item>, u: int, segs: Seq<Seq<u8>>) -> ResKind {
    if segs.len() == 0 {
        ResKind::NotFound
    } else {
        match resolve_base(a, u, segs[0]) {
            Find::Multi => ResKind::Ambig,
            Find::Miss => ResKind::NotFound,
            Find::Hit(i) => resolve_rest(a, u, i, segs, 1),
        }
    }
}

/// The executable outcome of a lookup in one module.
pub enum FindRes {
    Hit(usize),
    Miss,
    Multi,
}

/// The mathematical value of a [`FindRes`].
pub open spec fn find_view(r: FindRes) -> Find {
    match r {
        FindRes::Hit(i) => Find::Hit(i as int),
        FindRes::Miss => Find::Miss,
        FindRes::Multi => Find::Multi,
    }
}

/// Scans module `m` for items named `name`.
fn scan_module(a: &Vec<Item>, m: usize, name: &Vec<u8>) -> (r: FindRes)
    ensures
        find_view(r) == lookup_in(a@, m as int, name@),
        r is Hit ==> r->0 < a@.len(),
{
    let n = a.len();
    let mut count: usize = 0;
    let mut first: usize = 0;
    let mut k: usize = 0;
    while k < n
        invariant
            k <= n,
            n == a@.len(),
            count <= k,
            count_from(a@, m as int, name@, 0) == count + count_from(a@, m as int, name@, k as int),
            count > 0 ==> first_from(a@, m as int, name@, 0) == Some(first as int) && first
                < a@.len(),
            count == 0 ==> first_from(a@, m as int, name@, 0) == first_from(
                a@,
                m as int,
                name@,
                k as int,
            ),
        decreases n - k,
    {
        if k != 0 && a[k].parent == m && crate::ast::bytes_eq(&a[k].name, name) {
            if count == 0 {
                first = k;
            }
            count = count + 1;
        }
        k = k + 1;
    }
    if count >= 2 {
        FindRes::Multi
    } else if count == 1 {
        FindRes::Hit(first)
    } else {
        FindRes::Miss
    }
}

/// Walks outward from module `u` for a path's first segment.
fn resolve_base_x(a: &Vec<Item>, u: usize, name: &Vec<u8>) -> (r: FindRes)
    requires
        wf_arena(a@),
        u < a@.len(),
    ensures
        find_view(r) == resolve_base(a@, u as int, name@),
        r is Hit ==> r->0 < a@.len(),
{
    let mut cur = u;
    loop
        invariant
            wf_arena(a@),
            cur < a@.len(),
            resolve_base(a@, u as int, name@) == resolve_base(a@, cur as int, name@),
        decreases cur,
    {
        match scan_module(a, cur, name) {
            FindRes::Multi => {
                return FindRes::Multi;
            },
            FindRes::Hit(i) => {
                return FindRes::Hit(i);
            },
            FindRes::Miss => {
                if cur == 0 {
                    return FindRes::Miss;
                }
                cur = a[cur].parent;
            },
        }
    }
}

/// Decides visibility of item `i` from module `u`.
fn visible_x(a: &Vec<Item>, i: usize, u: usize) -> (r: bool)
    requires
        wf_arena(a@),
        i < a@.len(),
        u < a@.len(),
    ensures
        r == visible(a@, i as int, u as int),
{
    if a[i].exported {
        return true;
    }
    let m = a[i].parent;
    let mut cur = u;
    loop
        invariant
            wf_arena(a@),
            cur < a@.len(),
            i < a@.len(),
            m == a@[i as int].parent,
            !a@[i as int].exported,
            in_subtree(a@, m as int, u as int) == in_subtree(a@, m as int, cur as int),
        decreases cur,
    {
        if cur == m {
            return true;
        }
        if cur == 0 {
            return false;
        }
        cur = a[cur].parent;
    }
}

/// The executable outcome of resolving a path.
#[derive(Clone, Copy, PartialEq, Eq, Structural, Debug)]
pub enum Resolution {
    Found(usize),
    NotFound,
    Ambig,
}

/// The mathematical value of a [`Resolution`].
pub open spec fn resolution_view(r: Resolution) -> ResKind {
    match r {
        Resolution::Found(i) => ResKind::Found(i as int),
        Resolution::NotFound => ResKind::NotFound,
        Resolution::Ambig => ResKind::Ambig,
    }
}

/// Resolves one path from module `u` of the arena.
pub fn resolve_one(a: &Vec<Item>, u: usize, segs: &Vec<Vec<u8>>) -> (r: Resolution)
    requires
        wf_arena(a@),
        u < a@.len(),
    ensures
        resolution_view(r) == resolve_path(a@, u as int, segs_view(segs@)),
{
    let ghost sv = segs_view(segs@);
    if segs.len() == 0 {
        return Resolution::NotFound;
    }
    proof {
        assert(sv[0] == segs@[0]@);
    }
    let mut cur: usize = 0;
    match resolve_base_x(a, u, &segs[0]) {
        FindRes::Multi => {
            return Resolution::Ambig;
        },
        FindRes::Miss => {
            return Resolution::NotFound;
        },
        FindRes::Hit(i) => {
            cur = i;
        },
    }
    let mut k: usize = 1;
    while k < segs.len()
        invariant
            wf_arena(a@),
            u < a@.len(),
            cur < a@.len(),
            1 <= k <= segs@.len(),
            sv == segs_view(segs@),
            sv.len() == segs@.len(),
            resolve_path(a@, u as int, sv) == resolve_rest(a@, u as int, cur as int, sv, k as int),
        decreases segs@.len() - k,
    {
        proof {
            assert(sv[k as int] == segs@[k as int]@);
        }
        let is_module = a[cur].kind == ItemKind::Module;
        if !is_module {
            return Resolution::NotFound;
        }
        match scan_module(a, cur, &segs[k]) {
            FindRes::Multi => {
                return Resolution::Ambig;
            },
            FindRes::Miss => {
                return Resolution::NotFound;
            },
            FindRes::Hit(i) => {
                if !visible_x(a, i, u) {
                    return Resolution::NotFound;
                }
                cur = i;
            },
        }
        k = k + 1;
    }
    Resolution::Found(cur)
}

/// Below `k`, a zero count means no item of module `m` at or past `k`
/// carries `name`.
proof fn lemma_count_zero_no_match(a: Seq<Item>, m: int, name: Seq<u8>, k: int, j: int)
    requires
        count_from(a, m, name, k) == 0,
        0 <= k <= j,
    ensures
        !(declared_in(a, j, m) && named(a, j, name)),
    decreases a.len() - k,
{
    if k < 0 || k >= a.len() {
    } else if j == k {
    } else {
        lemma_count_zero_no_match(a, m, name, k + 1, j);
    }
}

/// When module `m` holds exactly one item named `name` at or past `k`,
/// and `t` is such an item, the scan finds `t`.
proof fn lemma_unique_first(a: Seq<Item>, m: int, name: Seq<u8>, k: int, t: int)
    requires
        count_from(a, m, name, k) == 1,
        0 <= k <= t,
        declared_in(a, t, m),
        named(a, t, name),
    ensures
        first_from(a, m, name, k) == Some(t),
    decreases a.len() - k,
{
    if k < 0 || k >= a.len() {
        assert(t < a.len());
    } else if declared_in(a, k, m) && named(a, k, name) {
        assert(count_from(a, m, name, k + 1) == 0);
        if t != k {
            lemma_count_zero_no_match(a, m, name, k + 1, t);
        }
    } else {
        lemma_unique_first(a, m, name, k + 1, t);
    }
}

/// The visibility law of intra-tree qualified calls: when a path's
/// first segment names module `m` from the use site, and `m` declares
/// exactly one item `t` under the second segment, and the use site lies
/// in `m`'s subtree — in `m` itself or anywhere nested inside it —
/// then the path resolves to `t`.  Nothing here asks whether `t` is
/// exported: within the declaring module's subtree, private items
/// resolve just as exported ones do.
pub proof fn lemma_subtree_call_resolves(a: Seq<Item>, u: int, m: int, segs: Seq<Seq<u8>>, t: int)
    requires
        wf_arena(a),
        valid_scope(a, m),
        0 <= u < a.len(),
        segs.len() == 2,
        resolve_base(a, u, segs[0]) == Find::Hit(m),
        declared_in(a, t, m),
        named(a, t, segs[1]),
        count_from(a, m, segs[1], 0) == 1,
        in_subtree(a, m, u),
    ensures
        resolve_path(a, u, segs) == ResKind::Found(t),
{
    lemma_unique_first(a, m, segs[1], 0, t);
    assert(lookup_in(a, m, segs[1]) == Find::Hit(t));
    assert(a[t].parent == m);
    assert(visible(a, t, u));
    assert(resolve_rest(a, u, t, segs, 2) == ResKind::Found(t));
}

/// The error one path reference yields, if any.
pub open spec fn err_of_path(a: Seq<Item>, p: PathRef) -> Option<ErrS> {
    match resolve_path(a, p.module as int, segs_view(p.segs@)) {
        ResKind::Found(_) => None,
        ResKind::NotFound => Some(
            ErrS::UnresolvedS {
                path: segs_view(p.segs@),
                scope: p.module as int,
                span: p.span,
            },
        ),
        ResKind::Ambig => Some(
            ErrS::AmbiguousS { path: segs_view(p.segs@), scope: p.module as int, span: p.span },
        ),
    }
}

/// The errors of a list of path references, in order.
pub open spec fn errs_of_paths(a: Seq<Item>, ps: Seq<PathRef>) -> Seq<ErrS>
    decreases ps.len(),
{
    if ps.len() == 0 {
        Seq::empty()
    } else {
        let front = errs_of_paths(a, ps.drop_last());
        match err_of_path(a, ps.last()) {
            Some(e) => front.push(e),
            None => front,
        }
    }
}

/// Resolves every collected path reference against the symbol table and
/// returns the errors found, in the order the references stand in.
pub fn resolve_all(tab: &SymTab, paths: &Vec<PathRef>) -> (r: Vec<CheckError>)
    requires
        wf_arena(tab.items@),
        forall|i: int|
            0 <= i < paths@.len() ==> valid_scope(tab.items@, (#[trigger] paths@[i]).module as int),
    ensures
        errs_view(r@) == errs_of_paths(tab.items@, paths@),
{
    let mut r: Vec<CheckError> = Vec::new();
    let n = paths.len();
    let mut k: usize = 0;
    while k < n
        invariant
            k <= n,
            n == paths@.len(),
            wf_arena(tab.items@),
            forall|i: int|
                0 <= i < paths@.len() ==> valid_scope(
                    tab.items@,
                    (#[trigger] paths@[i]).module as int,
                ),
            errs_view(r@) == errs_of_paths(tab.items@, paths@.take(k as int)),
        decreases n - k,
    {
        let ghost prefix = paths@.take(k as int);
        let p = &paths[k];
        proof {
            assert(paths@.take(k + 1).drop_last() =~= prefix);
            assert(paths@.take(k + 1).last() == paths@[k as int]);
        }
        match resolve_one(&tab.items, p.module, &p.segs) {
            Resolution::Found(_) => {},
            Resolution::NotFound => {
                let e = CheckError::UnresolvedPath {
                    path: copy_segs(&p.segs),
                    scope: p.module,
                    span: p.span,
                };
                r.push(e);
                proof {
                    assert(errs_view(r@) =~= errs_of_paths(tab.items@, paths@.take(k + 1)));
                }
            },
            Resolution::Ambig => {
                let e = CheckError::AmbiguousPath {
                    path: copy_segs(&p.segs),
                    scope: p.module,
                    span: p.span,
                };
                r.push(e);
                proof {
                    assert(errs_view(r@) =~= errs_of_paths(tab.items@, paths@.take(k + 1)));
                }
            },
        }
        k = k + 1;
    }
    proof {
        assert(paths@.take(n as int) =~= paths@);
    }
    r
}

} // verus!
