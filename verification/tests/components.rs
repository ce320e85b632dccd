//! Tests of single pipeline stages on hand-built values.

use modcheck::ast::{Item, ItemKind, PathRef, Span};
use modcheck::generic::{bar, foo, foo2, returns_closure};
use modcheck::resolve::{resolve_all, resolve_one, Resolution};
use modcheck::symtab::{build_symbol_table, SymTab};
use modcheck::errors::CheckError;

fn sp(lo: usize, hi: usize) -> Span {
    Span { lo, hi }
}

fn item(kind: ItemKind, name: &str, exported: bool, parent: usize, lo: usize) -> Item {
    Item { kind, name: name.as_bytes().to_vec(), exported, parent, span: sp(lo, lo + 1) }
}

fn root() -> Item {
    Item { kind: ItemKind::Module, name: Vec::new(), exported: false, parent: 0, span: sp(0, 0) }
}

#[test]
fn resolver_reports_a_duplicate_as_ambiguous() {
    // The builder would reject this arena; the resolver still defends
    // against two same-named items in one module.
    let items = vec![
        root(),
        item(ItemKind::Module, "m", false, 0, 1),
        item(ItemKind::Function, "x", true, 1, 2),
        item(ItemKind::Function, "x", true, 1, 3),
    ];
    let segs = vec![b"m".to_vec(), b"x".to_vec()];
    let r = resolve_one(&items, 0, &segs);
    assert_eq!(r, Resolution::Ambig);
}

#[test]
fn resolver_walks_outward_to_an_enclosing_module() {
    // From inside `inner`, the first segment `helper` is found two
    // levels up, among the root's items.
    let items = vec![
        root(),
        item(ItemKind::Module, "helper", false, 0, 1),
        item(ItemKind::Function, "go", true, 1, 2),
        item(ItemKind::Module, "outer", false, 0, 3),
        item(ItemKind::Module, "inner", false, 3, 4),
    ];
    let segs = vec![b"helper".to_vec(), b"go".to_vec()];
    assert_eq!(resolve_one(&items, 4, &segs), Resolution::Found(2));
}

#[test]
fn nearer_module_shadows_an_outer_one() {
    let items = vec![
        root(),
        item(ItemKind::Module, "m", false, 0, 1),
        item(ItemKind::Function, "f", true, 1, 2),
        item(ItemKind::Module, "outer", false, 0, 3),
        item(ItemKind::Module, "m", false, 3, 4),
        item(ItemKind::Function, "f", true, 4, 5),
    ];
    let segs = vec![b"m".to_vec(), b"f".to_vec()];
    // From `outer`, `m` means the nested module, so its exported `f`
    // is the target.
    assert_eq!(resolve_one(&items, 3, &segs), Resolution::Found(5));
    // From the root, `m` means the first module.
    assert_eq!(resolve_one(&items, 0, &segs), Resolution::Found(2));
}

#[test]
fn builder_hands_the_arena_through_unchanged() {
    let items = vec![root(), item(ItemKind::Function, "a", false, 0, 1)];
    match build_symbol_table(items) {
        Ok(SymTab { items }) => {
            assert_eq!(items.len(), 2);
            assert_eq!(items[1].name, b"a".to_vec());
        }
        Err(e) => panic!("unexpected error: {:?}", e),
    }
}

#[test]
fn builder_reports_the_first_collision() {
    let items = vec![
        root(),
        item(ItemKind::Function, "a", false, 0, 10),
        item(ItemKind::Function, "b", false, 0, 20),
        item(ItemKind::Function, "b", false, 0, 30),
        item(ItemKind::Function, "a", false, 0, 40),
    ];
    match build_symbol_table(items) {
        Err(CheckError::DuplicateSymbol { name, first, second }) => {
            assert_eq!(name, b"b".to_vec());
            assert_eq!(first.lo, 20);
            assert_eq!(second.lo, 30);
        }
        other => panic!("unexpected outcome: {:?}", other),
    }
}

#[test]
fn resolve_all_keeps_error_order() {
    let items = vec![root(), item(ItemKind::Module, "m", false, 0, 1)];
    let tab = match build_symbol_table(items) {
        Ok(t) => t,
        Err(e) => panic!("unexpected error: {:?}", e),
    };
    let paths = vec![
        PathRef { segs: vec![b"m".to_vec(), b"gone".to_vec()], module: 0, span: sp(1, 2) },
        PathRef { segs: vec![b"nowhere".to_vec(), b"x".to_vec()], module: 0, span: sp(3, 4) },
    ];
    let errs = resolve_all(&tab, &paths);
    assert_eq!(errs.len(), 2);
    match (&errs[0], &errs[1]) {
        (
            CheckError::UnresolvedPath { span: s0, .. },
            CheckError::UnresolvedPath { span: s1, .. },
        ) => {
            assert_eq!(s0.lo, 1);
            assert_eq!(s1.lo, 3);
        }
        other => panic!("unexpected errors: {:?}", other),
    }
}

#[test]
fn sample_declarations_run() {
    foo(());
    foo2(());
    let _opaque = bar();
    let f = returns_closure();
    assert_eq!(f(5), 6);
    assert_eq!(f(-1), 0);
}
