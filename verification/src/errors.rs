//! The error taxonomy and the per-fixture report.
//!
//! Every failure the pipeline can report is one of five kinds: a syntax
//! error from the lexer or parser, a duplicate name inside one module, a
//! qualified path with no visible target, a defensively detected ambiguous
//! path, and a trait name that does not resolve to a visible trait.
//! Each error is mirrored by a ghost value ([`ErrS`]) over `Seq`, which the
//! contracts of the later pipeline stages are stated over.

use vstd::prelude::*;

use crate::ast::Span;

verus! {

/// What the lexer or parser was looking for when it failed.
#[derive(Clone, Copy, PartialEq, Eq, Structural, Debug)]
pub enum ExpectedTok {
    /// An item keyword: `mod`, `fn`, `trait`, `type`, or `pub` before one.
    ItemStart,
    /// An identifier naming an item, parameter or path segment.
    Name,
    OpenBrace,
    CloseBrace,
    OpenParen,
    CloseParen,
    /// A type: an identifier path, a tuple, or `impl` plus a bound.
    TypeStart,
    /// A trait bound: an identifier path, possibly with `Fn`-style
    /// argument and return annotations.
    BoundStart,
    Semicolon,
    AssignSign,
    Colon,
    CloseAngle,
    /// Any character the lexer knows.
    KnownChar,
}

/// What stood at the failing position instead.
#[derive(Clone, Copy, PartialEq, Eq, Structural, Debug)]
pub enum FoundTok {
    /// The input ended first.
    EndOfInput,
    /// A character outside the lexer's alphabet.
    BadChar,
    /// Some other token; the span points at it.
    OtherTok,
}

/// One failure found while checking a fixture.
#[derive(Clone, PartialEq, Eq, Debug)]
pub enum CheckError {
    /// Malformed source text; nothing past the span was examined.
    Syntax { span: Span, expected: ExpectedTok, found: FoundTok },
    /// Two items of the same name declared in the same module.
    DuplicateSymbol { name: Vec<u8>, first: Span, second: Span },
    /// A qualified path with no visible target from its use site; `scope`
    /// is the arena index of the module the resolver started from.
    UnresolvedPath { path: Vec<Vec<u8>>, scope: usize, span: Span },
    /// A path segment matched by more than one item of one module.  The
    /// symbol table builder rules this out, but the resolver still checks.
    AmbiguousPath { path: Vec<Vec<u8>>, scope: usize, span: Span },
    /// A bound or `impl Trait` position naming no visible trait.
    UnknownTrait { name: Vec<u8>, span: Span },
}

/// The ghost mirror of [`CheckError`], with names as sequences.
pub enum ErrS {
    SyntaxS { span: Span, expected: ExpectedTok, found: FoundTok },
    DuplicateS { name: Seq<u8>, first: Span, second: Span },
    UnresolvedS { path: Seq<Seq<u8>>, scope: int, span: Span },
    AmbiguousS { path: Seq<Seq<u8>>, scope: int, span: Span },
    UnknownTraitS { name: Seq<u8>, span: Span },
}

/// The mathematical value of one error.
pub open spec fn err_view(e: CheckError) -> ErrS {
    match e {
        CheckError::Syntax { span, expected, found } => ErrS::SyntaxS { span, expected, found },
        CheckError::DuplicateSymbol { name, first, second } => ErrS::DuplicateS {
            name: name@,
            first,
            second,
        },
        CheckError::UnresolvedPath { path, scope, span } => ErrS::UnresolvedS {
            path: crate::ast::segs_view(path@),
            scope: scope as int,
            span,
        },
        CheckError::AmbiguousPath { path, scope, span } => ErrS::AmbiguousS {
            path: crate::ast::segs_view(path@),
            scope: scope as int,
            span,
        },
        CheckError::UnknownTrait { name, span } => ErrS::UnknownTraitS { name: name@, span },
    }
}

/// The mathematical value of an error list.
pub open spec fn errs_view(s: Seq<CheckError>) -> Seq<ErrS> {
    s.map_values(|e: CheckError| err_view(e))
}

/// Whether a fixture was accepted.
#[derive(Clone, Copy, PartialEq, Eq, Structural, Debug)]
pub enum Status {
    Pass,
    Fail,
}

/// The outcome of checking one fixture: `Pass` with no errors, or `Fail`
/// with every error found up to the first failing stage.
#[derive(Clone, PartialEq, Eq, Debug)]
pub struct Report {
    pub status: Status,
    pub errors: Vec<CheckError>,
}

/// A report is consistent: it passes exactly when it carries no error.
pub open spec fn report_wf(r: &Report) -> bool {
    (r.status == Status::Pass) <==> r.errors@.len() == 0
}

} // verus!
