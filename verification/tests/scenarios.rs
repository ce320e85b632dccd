//! End-to-end acceptance scenarios through the full pipeline.

use modcheck::driver::{check_fixture, check_fixtures, exit_code};
use modcheck::errors::{CheckError, FoundTok, Status};

fn check(src: &str) -> modcheck::errors::Report {
    check_fixture(&src.as_bytes().to_vec())
}

#[test]
fn nested_module_call_passes() {
    let r = check(
        "mod math { pub fn sin(f: f64) -> f64 { 1.0 } fn cos(f: f64) -> f64 { 2.0 } } \
         fn main() { math::sin(5.0); }",
    );
    assert_eq!(r.status, Status::Pass);
    assert_eq!(r.errors.len(), 0);
}

#[test]
fn private_call_from_outside_fails() {
    let r = check(
        "mod math { pub fn sin(f: f64) -> f64 { 1.0 } fn cos(f: f64) -> f64 { 2.0 } } \
         fn main() { math::cos(5.0); }",
    );
    assert_eq!(r.status, Status::Fail);
    assert_eq!(r.errors.len(), 1);
    match &r.errors[0] {
        CheckError::UnresolvedPath { path, scope, .. } => {
            assert_eq!(path.len(), 2);
            assert_eq!(path[0], b"math".to_vec());
            assert_eq!(path[1], b"cos".to_vec());
            assert_eq!(*scope, 0);
        }
        other => panic!("unexpected error: {:?}", other),
    }
}

#[test]
fn private_call_within_module_passes() {
    // A private item serves its own module and everything nested in it,
    // even through a qualified path.
    let r = check(
        "mod math { fn cos(f: f64) -> f64 { 2.0 } fn usecos() { math::cos(1.0); } }",
    );
    assert_eq!(r.status, Status::Pass);
    assert_eq!(r.errors.len(), 0);
}

#[test]
fn private_call_within_nested_module_passes() {
    let r = check(
        "mod outer { mod inner { fn f() { } fn g() { inner::f(); } } }",
    );
    assert_eq!(r.status, Status::Pass);
}

#[test]
fn generic_bound_on_local_trait_passes() {
    let r = check("trait Trait { } fn foo2<T: Trait>(arg: T) { }");
    assert_eq!(r.status, Status::Pass);
    assert_eq!(r.errors.len(), 0);
}

#[test]
fn impl_of_undeclared_trait_fails() {
    let r = check("fn bar() -> impl Unknown { }");
    assert_eq!(r.status, Status::Fail);
    assert_eq!(r.errors.len(), 1);
    match &r.errors[0] {
        CheckError::UnknownTrait { name, .. } => {
            assert_eq!(name, &b"Unknown".to_vec());
        }
        other => panic!("unexpected error: {:?}", other),
    }
}

#[test]
fn duplicate_names_in_one_module_fail() {
    let r = check("mod m { fn a() { } fn a() { } }");
    assert_eq!(r.status, Status::Fail);
    assert_eq!(r.errors.len(), 1);
    match &r.errors[0] {
        CheckError::DuplicateSymbol { name, first, second } => {
            assert_eq!(name, &b"a".to_vec());
            assert!(first.lo < second.lo);
        }
        other => panic!("unexpected error: {:?}", other),
    }
}

#[test]
fn whole_fixture_of_every_construct_passes() {
    let r = check(
        "mod math {\n\
             type Complex = (f64, f64);\n\
             pub fn sin(f: f64) -> f64 { 1.0 }\n\
             fn cos(f: f64) -> f64 { 2.0 }\n\
             fn tan(f: f64) -> f64 { 3.0 }\n\
         }\n\
         mod generic {\n\
             trait Trait {}\n\
             fn foo(arg: impl Trait) {}\n\
             fn bar() -> impl Trait {}\n\
             fn foo2<T: Trait>(arg: T) {}\n\
             fn returns_closure() -> impl Fn(i32) -> i32 { |x| x + 1 }\n\
         }\n\
         fn main() { math::sin(5.0); () }",
    );
    assert_eq!(r.status, Status::Pass);
    assert_eq!(r.errors.len(), 0);
}

#[test]
fn rerunning_the_pipeline_yields_the_same_report() {
    let srcs = [
        "mod math { pub fn sin(f: f64) -> f64 { 1.0 } } fn main() { math::sin(5.0); }",
        "mod m { fn a() { } fn a() { } }",
        "fn bar() -> impl Unknown { }",
        "mod math { fn cos(f: f64) -> f64 { 2.0 } } fn main() { math::cos(5.0); }",
    ];
    for s in srcs {
        let once = check(s);
        let twice = check(s);
        assert_eq!(once, twice);
    }
}

#[test]
fn exported_alias_is_reachable_and_private_one_is_not() {
    let ok = check("mod m { pub type T2 = u32; } fn f(x: m::T2) -> m::T2 { 0 }");
    assert_eq!(ok.status, Status::Pass);
    let bad = check("mod m { type T2 = u32; } fn f(x: m::T2) { }");
    assert_eq!(bad.status, Status::Fail);
    assert!(matches!(bad.errors[0], CheckError::UnresolvedPath { .. }));
}

#[test]
fn qualified_trait_bound_follows_visibility() {
    let ok = check("mod t { pub trait Tr { } } fn g<T: t::Tr>(x: T) { }");
    assert_eq!(ok.status, Status::Pass);
    let bad = check("mod t { trait Tr { } } fn g<T: t::Tr>(x: T) { }");
    assert_eq!(bad.status, Status::Fail);
    match &bad.errors[0] {
        CheckError::UnknownTrait { name, .. } => assert_eq!(name, &b"Tr".to_vec()),
        other => panic!("unexpected error: {:?}", other),
    }
}

#[test]
fn unknown_byte_is_a_syntax_error() {
    let r = check("mod m { fn a() { } } @");
    assert_eq!(r.status, Status::Fail);
    assert_eq!(r.errors.len(), 1);
    match &r.errors[0] {
        CheckError::Syntax { found, .. } => assert_eq!(*found, FoundTok::BadChar),
        other => panic!("unexpected error: {:?}", other),
    }
}

#[test]
fn unbalanced_braces_are_a_syntax_error() {
    let r = check("mod m { fn a() { }");
    assert_eq!(r.status, Status::Fail);
    match &r.errors[0] {
        CheckError::Syntax { found, .. } => assert_eq!(*found, FoundTok::EndOfInput),
        other => panic!("unexpected error: {:?}", other),
    }
}

#[test]
fn batch_reports_are_isolated_and_counted() {
    let fixtures = vec![
        b"fn ok() { }".to_vec(),
        b"fn bad() -> impl Nowhere { }".to_vec(),
        b"fn ok2() { }".to_vec(),
    ];
    let reports = check_fixtures(&fixtures);
    assert_eq!(reports.len(), 3);
    assert_eq!(reports[0].status, Status::Pass);
    assert_eq!(reports[1].status, Status::Fail);
    assert_eq!(reports[2].status, Status::Pass);
    assert_eq!(exit_code(&reports), 1);
}

#[test]
fn exit_code_caps_at_255() {
    let fixtures: Vec<Vec<u8>> = (0..300).map(|_| b"@".to_vec()).collect();
    let reports = check_fixtures(&fixtures);
    assert_eq!(exit_code(&reports), 255);
    let empty: Vec<Vec<u8>> = Vec::new();
    assert_eq!(exit_code(&check_fixtures(&empty)), 0);
}
