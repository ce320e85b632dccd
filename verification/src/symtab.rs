//! The symbol table builder.
//!
//! The parser already delivers the items as an arena with parent links, so
//! building the table amounts to validating it: no module may declare two
//! items of the same name.  On the first collision, in declaration order,
//! the builder fails with a duplicate-symbol error and hands no table out.

use vstd::prelude::*;

use crate::ast::{bytes_eq, copy_bytes, wf_arena, Item};
use crate::errors::{err_view, CheckError, ErrS};

verus! {

/// The validated symbol table: the arena, with all names known unique
/// per module.
#[derive(Debug)]
pub struct SymTab {
    pub items: Vec<Item>,
}

/// Items `i` and `j` collide: both declared by the same module, under
/// the same name, with `i` first.
pub open spec fn dup_pair(a: Seq<Item>, i: int, j: int) -> bool {
    &&& 1 <= i < j < a.len()
    &&& a[i].parent == a[j].parent
    &&& a[i].name@ == a[j].name@
}

/// Some module of the arena declares two items of one name.
pub open spec fn has_dup(a: Seq<Item>) -> bool {
    exists|i: int, j: int| dup_pair(a, i, j)
}

/// The collision reported first: the one with the smallest second item,
/// and among those the smallest first item.
pub open spec fn is_first_dup(a: Seq<Item>, i: int, j: int) -> bool {
    &&& dup_pair(a, i, j)
    &&& forall|i2: int, j2: int| dup_pair(a, i2, j2) ==> j <= j2
    &&& forall|i2: int| dup_pair(a, i2, j) ==> i <= i2
}

/// The error value the first collision yields.
pub open spec fn first_dup_err(a: Seq<Item>) -> ErrS {
    let (i, j) = choose|i: int, j: int| is_first_dup(a, i, j);
    ErrS::DuplicateS { name: a[i].name@, first: a[i].span, second: a[j].span }
}

/// There is at most one first collision.
pub proof fn lemma_first_dup_unique(a: Seq<Item>, i1: int, j1: int, i2: int, j2: int)
    requires
        is_first_dup(a, i1, j1),
        is_first_dup(a, i2, j2),
    ensures
        i1 == i2,
        j1 == j2,
{
    assert(j1 <= j2);
    assert(j2 <= j1);
    assert(i1 <= i2);
    assert(i2 <= i1);
}

/// Validates the arena into a symbol table.
///
/// Succeeds exactly when no module declares two items of one name; on
/// success the table holds the arena unchanged.  Otherwise it reports
/// the first collision in declaration order and no table exists.
pub fn build_symbol_table(items: Vec<Item>) -> (r: Result<SymTab, CheckError>)
    requires
        wf_arena(items@),
    ensures
        r is Ok <==> !has_dup(items@),
        r is Ok ==> r->Ok_0.items@ == items@,
        r is Err ==> r->Err_0 is DuplicateSymbol && err_view(r->Err_0) == first_dup_err(items@),
{
    let n = items.len();
    let mut j: usize = 1;
    while j < n
        invariant
            1 <= j <= n,
            n == items@.len(),
            forall|i2: int, j2: int| 1 <= i2 < j2 < j ==> !dup_pair(items@, i2, j2),
        decreases n - j,
    {
        let mut i: usize = 1;
        while i < j
            invariant
                1 <= i <= j < n,
                n == items@.len(),
                forall|i2: int, j2: int| 1 <= i2 < j2 < j ==> !dup_pair(items@, i2, j2),
                forall|i2: int| 1 <= i2 < i ==> !dup_pair(items@, i2, j as int),
            decreases j - i,
        {
            if items[i].parent == items[j].parent && bytes_eq(&items[i].name, &items[j].name) {
                proof {
                    assert(dup_pair(items@, i as int, j as int));
                    assert(is_first_dup(items@, i as int, j as int));
                    let (ci, cj) = choose|ci: int, cj: int| is_first_dup(items@, ci, cj);
                    lemma_first_dup_unique(items@, i as int, j as int, ci, cj);
                }
                return Err(
                    CheckError::DuplicateSymbol {
                        name: copy_bytes(&items[i].name),
                        first: items[i].span,
                        second: items[j].span,
                    },
                );
            }
            i = i + 1;
        }
        j = j + 1;
    }
    proof {
        assert(forall|i2: int, j2: int| dup_pair(items@, i2, j2) ==> 1 <= i2 < j2 < n);
    }
    Ok(SymTab { items })
}

} // verus!
