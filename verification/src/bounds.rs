//! The trait and bound checker.
//!
//! For every trait name collected from a generic bound or an `impl Trait`
//! position, the checker confirms that the name resolves, from the module
//! it was written in, to a declared trait visible under the resolver's
//! policy.  The callable traits of the language itself (`Fn`, `FnMut`,
//! `FnOnce`) count as always declared.  Anything else — no target, a
//! target of another kind, or an ambiguous name — fails as an unknown
//! trait.  No type inference is attempted: this is a capability check on
//! declarations alone.

use vstd::prelude::*;

use crate::ast::{copy_bytes, segs_view, valid_scope, wf_arena, Item, ItemKind, TraitUse};
use crate::errors::{err_view, errs_view, CheckError, ErrS};
use crate::resolve::{resolve_one, resolve_path, ResKind, Resolution};
use crate::symtab::SymTab;

verus! {

/// One of the language's own callable traits, spelled out byte for byte:
/// `Fn`, `FnMut` or `FnOnce`.
pub open spec fn is_builtin_trait_name(s: Seq<u8>) -> bool {
    ||| (s.len() == 2 && s[0] == 70 && s[1] == 110)
    ||| (s.len() == 5 && s[0] == 70 && s[1] == 110 && s[2] == 77 && s[3] == 117 && s[4] == 116)
    ||| (s.len() == 6 && s[0] == 70 && s[1] == 110 && s[2] == 79 && s[3] == 110 && s[4] == 99
        && s[5] == 101)
}

/// Decides whether `name` is `Fn`, `FnMut` or `FnOnce`.
fn is_builtin_trait(name: &Vec<u8>) -> (r: bool)
    ensures
        r == is_builtin_trait_name(name@),
{
    let n = name.len();
    if n == 2 {
        name[0] == 70 && name[1] == 110
    } else if n == 5 {
        name[0] == 70 && name[1] == 110 && name[2] == 77 && name[3] == 117 && name[4] == 116
    } else if n == 6 {
        name[0] == 70 && name[1] == 110 && name[2] == 79 && name[3] == 110 && name[4] == 99
            && name[5] == 101
    } else {
        false
    }
}

/// The unknown-trait error a trait use yields: it names the last path
/// segment, the trait's own name.
pub open spec fn unknown_of(t: TraitUse) -> ErrS {
    ErrS::UnknownTraitS {
        name: if t.segs@.len() > 0 {
            t.segs@.last()@
        } else {
            Seq::empty()
        },
        span: t.span,
    }
}

/// The error one trait use yields, if any: none for a builtin callable
/// trait, none for a name resolving to a visible trait declaration, and
/// an unknown-trait error otherwise.
pub open spec fn err_of_use(a: Seq<Item>, t: TraitUse) -> Option<ErrS> {
    let sv = segs_view(t.segs@);
    if sv.len() == 1 && is_builtin_trait_name(sv[0]) {
        None
    } else {
        match resolve_path(a, t.module as int, sv) {
            ResKind::Found(i) => if 0 <= i < a.len() && a[i].kind == ItemKind::TraitDecl {
                None
            } else {
                Some(unknown_of(t))
            },
            ResKind::NotFound => Some(unknown_of(t)),
            ResKind::Ambig => Some(unknown_of(t)),
        }
    }
}

/// The errors of a list of trait uses, in order.
pub open spec fn errs_of_uses(a: Seq<Item>, ts: Seq<TraitUse>) -> Seq<ErrS>
    decreases ts.len(),
{
    if ts.len() == 0 {
        Seq::empty()
    } else {
        let front = errs_of_uses(a, ts.drop_last());
        match err_of_use(a, ts.last()) {
            Some(e) => front.push(e),
            None => front,
        }
    }
}

/// Builds the unknown-trait error for one use.
fn unknown_err(t: &TraitUse) -> (r: CheckError)
    ensures
        err_view(r) == unknown_of(*t),
{
    let n = t.segs.len();
    let name: Vec<u8> = if n > 0 {
        copy_bytes(&t.segs[n - 1])
    } else {
        Vec::new()
    };
    CheckError::UnknownTrait { name, span: t.span }
}

/// Checks every collected trait use against the symbol table and returns
/// the errors found, in the order the uses stand in.
pub fn check_bounds(tab: &SymTab, uses: &Vec<TraitUse>) -> (r: Vec<CheckError>)
    requires
        wf_arena(tab.items@),
        forall|i: int|
            0 <= i < uses@.len() ==> valid_scope(tab.items@, (#[trigger] uses@[i]).module as int),
    ensures
        errs_view(r@) == errs_of_uses(tab.items@, uses@),
{
    let mut r: Vec<CheckError> = Vec::new();
    let n = uses.len();
    let mut k: usize = 0;
    while k < n
        invariant
            k <= n,
            n == uses@.len(),
            wf_arena(tab.items@),
            forall|i: int|
                0 <= i < uses@.len() ==> valid_scope(
                    tab.items@,
                    (#[trigger] uses@[i]).module as int,
                ),
            errs_view(r@) == errs_of_uses(tab.items@, uses@.take(k as int)),
        decreases n - k,
    {
        let ghost prefix = uses@.take(k as int);
        let t = &uses[k];
        proof {
            assert(uses@.take(k + 1).drop_last() =~= prefix);
            assert(uses@.take(k + 1).last() == uses@[k as int]);
            assert(segs_view(t.segs@).len() == t.segs@.len());
            if t.segs@.len() > 0 {
                assert(segs_view(t.segs@)[0] == t.segs@[0]@);
            }
        }
        let ok: bool = if t.segs.len() == 1 && is_builtin_trait(&t.segs[0]) {
            true
        } else {
            match resolve_one(&tab.items, t.module, &t.segs) {
                Resolution::Found(i) => i < tab.items.len() && tab.items[i].kind
                    == ItemKind::TraitDecl,
                Resolution::NotFound => false,
                Resolution::Ambig => false,
            }
        };
        if !ok {
            r.push(unknown_err(t));
            proof {
                assert(errs_view(r@) =~= errs_of_uses(tab.items@, uses@.take(k + 1)));
            }
        }
        k = k + 1;
    }
    proof {
        assert(uses@.take(n as int) =~= uses@);
    }
    r
}

} // verus!
