//! The parser: tokens to a [`Parsed`] fixture, stated mathematically by
//! [`spec_parse`] and proved equal to it.
//!
//! One pass over the token list.  Items — modules (nested arbitrarily
//! deep), functions, trait declarations, type aliases — are registered
//! in the arena as their headings are met; an explicit stack tracks the
//! enclosing module.  A function's signature and a type alias's body
//! are scanned flat: a trait name is collected for the bound checker
//! when it follows `impl`, or follows `:` or `+` inside an angle-bracket
//! generic list; any other qualified path of two or more segments is
//! collected for the resolver.  Function bodies are skipped with
//! balanced braces while qualified paths in them are collected; trait
//! bodies are skipped whole.  Single-segment names in bodies are not
//! collected: a bare name refers to a local, a parameter or a sibling,
//! and lies outside the resolver's scope, which covers qualified paths
//! only.  On malformed input the parser stops at once with a syntax
//! error carrying the first offending span.

use vstd::prelude::*;

use crate::ast::{copy_bytes, items_view, lemma_items_view_index, lemma_items_view_len,
    parsed_view, paths_view, segs_view, uses_view, valid_scope, wf_parsed, Item,
    ItemKind, ItemS, Parsed, ParsedS, PathRef, PathS, Span, TraitUse, UseS};
use crate::errors::{err_view, CheckError, ErrS, ExpectedTok, FoundTok};
use crate::lexer::{lemma_toks_view_index, lemma_toks_view_len, toks_view, TokKind,
    TokS, Token};

verus! {

broadcast use lemma_toks_view_index, lemma_toks_view_len, lemma_items_view_index,
    lemma_items_view_len;

/// The syntax error reported at token position `pos`: at that token, or
/// at the end of the input when the tokens ran out first.
pub open spec fn spec_syn(ts: Seq<TokS>, pos: int, expected: ExpectedTok) -> ErrS {
    if 0 <= pos < ts.len() {
        ErrS::SyntaxS { span: ts[pos].span, expected, found: FoundTok::OtherTok }
    } else if ts.len() > 0 {
        let h = ts[ts.len() - 1].span.hi;
        ErrS::SyntaxS { span: Span { lo: h, hi: h }, expected, found: FoundTok::EndOfInput }
    } else {
        ErrS::SyntaxS { span: Span { lo: 0, hi: 0 }, expected, found: FoundTok::EndOfInput }
    }
}

/// Builds the syntax error [`spec_syn`] describes.
fn syn_err(toks: &Vec<Token>, pos: usize, expected: ExpectedTok) -> (e: CheckError)
    ensures
        e is Syntax,
        err_view(e) == spec_syn(toks_view(toks@), pos as int, expected),
{
    if pos < toks.len() {
        CheckError::Syntax { span: toks[pos].span, expected, found: FoundTok::OtherTok }
    } else if toks.len() > 0 {
        let h = toks[toks.len() - 1].span.hi;
        CheckError::Syntax { span: Span { lo: h, hi: h }, expected, found: FoundTok::EndOfInput }
    } else {
        CheckError::Syntax {
            span: Span { lo: 0, hi: 0 },
            expected,
            found: FoundTok::EndOfInput,
        }
    }
}

/// Registers one item in the arena and returns its index.
#[verifier::rlimit(100)]
fn push_item(
    out: &mut Parsed,
    kind: ItemKind,
    name: Vec<u8>,
    exported: bool,
    parent: usize,
    span: Span,
) -> (id: usize)
    requires
        wf_parsed(old(out)),
        valid_scope(old(out).items@, parent as int),
    ensures
        wf_parsed(final(out)),
        final(out).paths@ == old(out).paths@,
        final(out).trait_uses@ == old(out).trait_uses@,
        final(out).items@.len() == old(out).items@.len() + 1,
        id == old(out).items@.len(),
        forall|i: int| 0 <= i < old(out).items@.len() ==> final(out).items@[i] == old(
            out,
        ).items@[i],
        final(out).items@[id as int].kind == kind,
        forall|m: int| valid_scope(old(out).items@, m) ==> valid_scope(final(out).items@, m),
        items_view(final(out).items@) == items_view(old(out).items@).push(
            ItemS { kind, name: name@, exported, parent: parent as int, span },
        ),
{
    let ghost before = out.items@;
    let id = out.items.len();
    out.items.push(Item { kind, name, exported, parent, span });
    proof {
        let after = out.items@;
        assert forall|i: int|
            1 <= i < after.len() implies (#[trigger] after[i]).parent < i
            && after[after[i].parent as int].kind == ItemKind::Module by {
            if i < before.len() {
                assert(after[i] == before[i]);
                assert(after[before[i].parent as int] == before[before[i].parent as int]);
            } else {
                assert(after[i].parent == parent < i);
                assert(after[parent as int] == before[parent as int]);
            }
        };
        assert forall|m: int| valid_scope(before, m) implies valid_scope(after, m) by {
            assert(after[m] == before[m]);
        };
        assert forall|j: int|
            0 <= j < out.paths@.len() implies valid_scope(
            after,
            (#[trigger] out.paths@[j]).module as int,
        ) by {
            assert(valid_scope(before, out.paths@[j].module as int));
        };
        assert forall|j: int|
            0 <= j < out.trait_uses@.len() implies valid_scope(
            after,
            (#[trigger] out.trait_uses@[j]).module as int,
        ) by {
            assert(valid_scope(before, out.trait_uses@[j].module as int));
        };
        assert(items_view(after) =~= items_view(before).push(
            ItemS {
                kind,
                name: after.last().name@,
                exported,
                parent: parent as int,
                span,
            },
        ));
    }
    id
}

/// Records one qualified path for the resolver.
fn push_path(out: &mut Parsed, segs: Vec<Vec<u8>>, module: usize, span: Span)
    requires
        wf_parsed(old(out)),
        valid_scope(old(out).items@, module as int),
    ensures
        wf_parsed(final(out)),
        final(out).items@ == old(out).items@,
        final(out).trait_uses@ == old(out).trait_uses@,
        paths_view(final(out).paths@) == paths_view(old(out).paths@).push(
            PathS { segs: segs_view(segs@), module: module as int, span },
        ),
{
    let ghost before = out.paths@;
    out.paths.push(PathRef { segs, module, span });
    proof {
        assert forall|j: int|
            0 <= j < out.paths@.len() implies valid_scope(
            out.items@,
            (#[trigger] out.paths@[j]).module as int,
        ) by {
            if j < before.len() {
                assert(out.paths@[j] == before[j]);
            }
        };
        assert(paths_view(out.paths@) =~= paths_view(before).push(
            PathS {
                segs: segs_view(out.paths@.last().segs@),
                module: module as int,
                span,
            },
        ));
    }
}

/// Records one trait name for the bound checker.
fn push_trait_use(out: &mut Parsed, segs: Vec<Vec<u8>>, module: usize, span: Span)
    requires
        wf_parsed(old(out)),
        valid_scope(old(out).items@, module as int),
    ensures
        wf_parsed(final(out)),
        final(out).items@ == old(out).items@,
        final(out).paths@ == old(out).paths@,
        uses_view(final(out).trait_uses@) == uses_view(old(out).trait_uses@).push(
            UseS { segs: segs_view(segs@), module: module as int, span },
        ),
{
    let ghost before = out.trait_uses@;
    out.trait_uses.push(TraitUse { segs, module, span });
    proof {
        assert forall|j: int|
            0 <= j < out.trait_uses@.len() implies valid_scope(
            out.items@,
            (#[trigger] out.trait_uses@[j]).module as int,
        ) by {
            if j < before.len() {
                assert(out.trait_uses@[j] == before[j]);
            }
        };
        assert(uses_view(out.trait_uses@) =~= uses_view(before).push(
            UseS {
                segs: segs_view(out.trait_uses@.last().segs@),
                module: module as int,
                span,
            },
        ));
    }
}

/// The later segments of a path: the names after each `::`, the
/// position past the path, and the end of the last segment (`hi0` when
/// there is none).
pub open spec fn path_tail(ts: Seq<TokS>, i: int, hi0: usize) -> (Seq<Seq<u8>>, int, usize)
    decreases ts.len() - i,
{
    if 0 <= i && i < ts.len() && ts[i].kind == TokKind::PathSep && i + 1 < ts.len() && ts[i
        + 1].kind == TokKind::Ident {
        let (rest, j, hh) = path_tail(ts, i + 2, ts[i + 1].span.hi);
        (seq![ts[i + 1].name] + rest, j, hh)
    } else {
        (Seq::empty(), i, hi0)
    }
}

/// The tail scan never moves backwards nor past the end.
proof fn lemma_path_tail_ge(ts: Seq<TokS>, i: int, hi0: usize)
    ensures
        path_tail(ts, i, hi0).1 >= i,
        i <= ts.len() ==> path_tail(ts, i, hi0).1 <= ts.len(),
    decreases ts.len() - i,
{
    if 0 <= i && i < ts.len() && ts[i].kind == TokKind::PathSep && i + 1 < ts.len() && ts[i
        + 1].kind == TokKind::Ident {
        lemma_path_tail_ge(ts, i + 2, ts[i + 1].span.hi);
    }
}

/// An identifier path `a::b::c` at `pos`: its segments, the position
/// past it, and its span.  A dangling `::` is a syntax error.
pub open spec fn spec_path(ts: Seq<TokS>, pos: int) -> Result<(Seq<Seq<u8>>, int, Span), ErrS> {
    if !(0 <= pos < ts.len()) || ts[pos].kind != TokKind::Ident {
        Err(spec_syn(ts, pos, ExpectedTok::Name))
    } else {
        let (extra, j, hh) = path_tail(ts, pos + 1, ts[pos].span.hi);
        if j < ts.len() && ts[j].kind == TokKind::PathSep {
            Err(spec_syn(ts, j + 1, ExpectedTok::Name))
        } else {
            Ok((seq![ts[pos].name] + extra, j, Span { lo: ts[pos].span.lo, hi: hh }))
        }
    }
}

/// Reads an identifier path starting at `pos`.
fn parse_path(toks: &Vec<Token>, pos: usize) -> (r: Result<(Vec<Vec<u8>>, usize, Span), CheckError>)
    requires
        pos <= toks@.len(),
    ensures
        r is Ok ==> pos < r->Ok_0.1 <= toks@.len() && spec_path(toks_view(toks@), pos as int)
            == Ok::<(Seq<Seq<u8>>, int, Span), ErrS>(
            (segs_view(r->Ok_0.0@), r->Ok_0.1 as int, r->Ok_0.2),
        ),
        r is Err ==> r->Err_0 is Syntax && spec_path(toks_view(toks@), pos as int) == Err::<
            (Seq<Seq<u8>>, int, Span),
            ErrS,
        >(err_view(r->Err_0)),
{
    let ghost tv = toks_view(toks@);
    let n = toks.len();
    if pos >= n || !(toks[pos].kind == TokKind::Ident) {
        return Err(syn_err(toks, pos, ExpectedTok::Name));
    }
    let mut segs: Vec<Vec<u8>> = Vec::new();
    segs.push(copy_bytes(&toks[pos].name));
    let lo = toks[pos].span.lo;
    let ghost h0 = toks@[pos as int].span.hi;
    let mut hi = toks[pos].span.hi;
    let mut i = pos + 1;
    proof {
        assert(segs_view(segs@) =~= seq![tv[pos as int].name]);
    }
    while i < n && toks[i].kind == TokKind::PathSep && i + 1 < n && toks[i + 1].kind
        == TokKind::Ident
        invariant
            pos < i <= n,
            n == toks@.len(),
            tv == toks_view(toks@),
            segs@.len() >= 1,
            segs_view(segs@)[0] == tv[pos as int].name,
            path_tail(tv, pos + 1, h0).0 == segs_view(segs@).skip(1) + path_tail(
                tv,
                i as int,
                hi,
            ).0,
            path_tail(tv, pos + 1, h0).1 == path_tail(tv, i as int, hi).1,
            path_tail(tv, pos + 1, h0).2 == path_tail(tv, i as int, hi).2,
        decreases n - i,
    {
        segs.push(copy_bytes(&toks[i + 1].name));
        hi = toks[i + 1].span.hi;
        proof {
            assert(segs_view(segs@).skip(1) =~= segs_view(segs@.drop_last()).skip(1).push(
                tv[i + 1].name,
            ));
            assert(segs_view(segs@).skip(1) + path_tail(tv, i + 2, tv[i + 1].span.hi).0 =~=
                segs_view(segs@.drop_last()).skip(1) + (seq![tv[i + 1].name] + path_tail(
                tv,
                i + 2,
                tv[i + 1].span.hi,
            ).0));
        }
        i = i + 2;
    }
    if i < n && toks[i].kind == TokKind::PathSep {
        return Err(syn_err(toks, i + 1, ExpectedTok::Name));
    }
    proof {
        assert(path_tail(tv, i as int, hi) == (Seq::<Seq<u8>>::empty(), i as int, hi));
        assert(segs_view(segs@).skip(1) + Seq::<Seq<u8>>::empty() =~= segs_view(segs@).skip(1));
        assert(seq![tv[pos as int].name] + segs_view(segs@).skip(1) =~= segs_view(segs@));
    }
    Ok((segs, i, Span { lo, hi }))
}

/// One flat pass over a declaration's signature (a function's header up
/// to its body brace, or a type alias's body up to its semicolon).
/// `angle` counts open angle brackets and `prev` is the kind of the
/// token just before; a path after `impl`, or after `:` or `+` inside
/// angle brackets, is a trait bound, any other qualified path a
/// reference for the resolver.  Yields the position past the
/// terminator and the grown path and trait-use lists.
pub open spec fn spec_scan_sig(
    ts: Seq<TokS>,
    i: int,
    cur: int,
    angle: int,
    prev: TokKind,
    term: TokKind,
    exp: ExpectedTok,
    ps: Seq<PathS>,
    us: Seq<UseS>,
) -> Result<(int, Seq<PathS>, Seq<UseS>), ErrS>
    decreases ts.len() - i,
    via spec_scan_sig_dec
{
    if i < 0 || i >= ts.len() {
        Err(spec_syn(ts, i, exp))
    } else if ts[i].kind == term {
        Ok((i + 1, ps, us))
    } else if ts[i].kind == TokKind::Lt {
        spec_scan_sig(ts, i + 1, cur, angle + 1, TokKind::Lt, term, exp, ps, us)
    } else if ts[i].kind == TokKind::Gt {
        let a2: int = if angle > 0 {
            angle - 1
        } else {
            0
        };
        spec_scan_sig(ts, i + 1, cur, a2, TokKind::Gt, term, exp, ps, us)
    } else if ts[i].kind == TokKind::Ident {
        match spec_path(ts, i) {
            Err(e) => Err(e),
            Ok((segs, i2, sp)) => {
                if prev == TokKind::KwImpl || (angle > 0 && (prev == TokKind::Colon || prev
                    == TokKind::Plus)) {
                    spec_scan_sig(
                        ts,
                        i2,
                        cur,
                        angle,
                        TokKind::Ident,
                        term,
                        exp,
                        ps,
                        us.push(UseS { segs, module: cur, span: sp }),
                    )
                } else if segs.len() >= 2 {
                    spec_scan_sig(
                        ts,
                        i2,
                        cur,
                        angle,
                        TokKind::Ident,
                        term,
                        exp,
                        ps.push(PathS { segs, module: cur, span: sp }),
                        us,
                    )
                } else {
                    spec_scan_sig(ts, i2, cur, angle, TokKind::Ident, term, exp, ps, us)
                }
            },
        }
    } else {
        spec_scan_sig(ts, i + 1, cur, angle, ts[i].kind, term, exp, ps, us)
    }
}

#[via_fn]
proof fn spec_scan_sig_dec(
    ts: Seq<TokS>,
    i: int,
    cur: int,
    angle: int,
    prev: TokKind,
    term: TokKind,
    exp: ExpectedTok,
    ps: Seq<PathS>,
    us: Seq<UseS>,
) {
    if 0 <= i < ts.len() && ts[i].kind == TokKind::Ident {
        lemma_path_tail_ge(ts, i + 1, ts[i].span.hi);
    }
}

/// A function body after its opening brace: braces balanced, every
/// qualified path collected for the resolver.  Yields the position past
/// the closing brace and the grown path list.
pub open spec fn spec_scan_block(ts: Seq<TokS>, i: int, cur: int, depth: int, ps: Seq<PathS>)
    -> Result<(int, Seq<PathS>), ErrS>
    decreases ts.len() - i,
    via spec_scan_block_dec
{
    if i < 0 || i >= ts.len() {
        Err(spec_syn(ts, i, ExpectedTok::CloseBrace))
    } else if ts[i].kind == TokKind::LBrace {
        spec_scan_block(ts, i + 1, cur, depth + 1, ps)
    } else if ts[i].kind == TokKind::RBrace {
        if depth <= 1 {
            Ok((i + 1, ps))
        } else {
            spec_scan_block(ts, i + 1, cur, depth - 1, ps)
        }
    } else if ts[i].kind == TokKind::Ident && i + 1 < ts.len() && ts[i + 1].kind
        == TokKind::PathSep {
        match spec_path(ts, i) {
            Err(e) => Err(e),
            Ok((segs, i2, sp)) => spec_scan_block(
                ts,
                i2,
                cur,
                depth,
                ps.push(PathS { segs, module: cur, span: sp }),
            ),
        }
    } else {
        spec_scan_block(ts, i + 1, cur, depth, ps)
    }
}

#[via_fn]
proof fn spec_scan_block_dec(ts: Seq<TokS>, i: int, cur: int, depth: int, ps: Seq<PathS>) {
    if 0 <= i < ts.len() && ts[i].kind == TokKind::Ident {
        lemma_path_tail_ge(ts, i + 1, ts[i].span.hi);
    }
}

/// A trait body after its opening brace: braces balanced, nothing
/// collected.  Yields the position past the closing brace.
pub open spec fn spec_skip(ts: Seq<TokS>, i: int, depth: int) -> Result<int, ErrS>
    decreases ts.len() - i,
{
    if i < 0 || i >= ts.len() {
        Err(spec_syn(ts, i, ExpectedTok::CloseBrace))
    } else if ts[i].kind == TokKind::LBrace {
        spec_skip(ts, i + 1, depth + 1)
    } else if ts[i].kind == TokKind::RBrace {
        if depth <= 1 {
            Ok(i + 1)
        } else {
            spec_skip(ts, i + 1, depth - 1)
        }
    } else {
        spec_skip(ts, i + 1, depth)
    }
}

/// Scans a signature, growing the collected lists of `out`.
fn scan_sig(
    toks: &Vec<Token>,
    pos: usize,
    cur: usize,
    out: &mut Parsed,
    term: TokKind,
    exp: ExpectedTok,
) -> (r: Result<usize, CheckError>)
    requires
        pos <= toks@.len(),
        wf_parsed(old(out)),
        valid_scope(old(out).items@, cur as int),
    ensures
        wf_parsed(final(out)),
        final(out).items@ == old(out).items@,
        r is Ok ==> pos < r->Ok_0 <= toks@.len() && spec_scan_sig(
            toks_view(toks@),
            pos as int,
            cur as int,
            0,
            TokKind::Comma,
            term,
            exp,
            paths_view(old(out).paths@),
            uses_view(old(out).trait_uses@),
        ) == Ok::<(int, Seq<PathS>, Seq<UseS>), ErrS>(
            (
                r->Ok_0 as int,
                paths_view(final(out).paths@),
                uses_view(final(out).trait_uses@),
            ),
        ),
        r is Err ==> r->Err_0 is Syntax && spec_scan_sig(
            toks_view(toks@),
            pos as int,
            cur as int,
            0,
            TokKind::Comma,
            term,
            exp,
            paths_view(old(out).paths@),
            uses_view(old(out).trait_uses@),
        ) == Err::<(int, Seq<PathS>, Seq<UseS>), ErrS>(err_view(r->Err_0)),
{
    let ghost tv = toks_view(toks@);
    let n = toks.len();
    let mut i = pos;
    let mut angle: usize = 0;
    let mut prev: TokKind = TokKind::Comma;
    loop
        invariant
            pos <= i <= n,
            n == toks@.len(),
            tv == toks_view(toks@),
            angle <= i - pos,
            wf_parsed(out),
            out.items@ == old(out).items@,
            valid_scope(out.items@, cur as int),
            spec_scan_sig(
                tv,
                pos as int,
                cur as int,
                0,
                TokKind::Comma,
                term,
                exp,
                paths_view(old(out).paths@),
                uses_view(old(out).trait_uses@),
            ) == spec_scan_sig(
                tv,
                i as int,
                cur as int,
                angle as int,
                prev,
                term,
                exp,
                paths_view(out.paths@),
                uses_view(out.trait_uses@),
            ),
        decreases n - i,
    {
        if i >= n {
            return Err(syn_err(toks, i, exp));
        }
        let k = toks[i].kind;
        if k == term {
            return Ok(i + 1);
        }
        if k == TokKind::Lt {
            angle = angle + 1;
            prev = k;
            i = i + 1;
        } else if k == TokKind::Gt {
            if angle > 0 {
                angle = angle - 1;
            }
            prev = k;
            i = i + 1;
        } else if k == TokKind::Ident {
            match parse_path(toks, i) {
                Err(e) => {
                    return Err(e);
                },
                Ok((segs, i2, sp)) => {
                    let is_bound = prev == TokKind::KwImpl || (angle > 0 && (prev
                        == TokKind::Colon || prev == TokKind::Plus));
                    if is_bound {
                        push_trait_use(out, segs, cur, sp);
                    } else if segs.len() >= 2 {
                        push_path(out, segs, cur, sp);
                    }
                    prev = TokKind::Ident;
                    i = i2;
                },
            }
        } else {
            prev = k;
            i = i + 1;
        }
    }
}

/// Scans a function body, growing the collected path list of `out`.
fn scan_block(toks: &Vec<Token>, pos: usize, cur: usize, out: &mut Parsed) -> (r: Result<
    usize,
    CheckError,
>)
    requires
        1 <= pos <= toks@.len(),
        wf_parsed(old(out)),
        valid_scope(old(out).items@, cur as int),
    ensures
        wf_parsed(final(out)),
        final(out).items@ == old(out).items@,
        final(out).trait_uses@ == old(out).trait_uses@,
        r is Ok ==> pos < r->Ok_0 <= toks@.len() && spec_scan_block(
            toks_view(toks@),
            pos as int,
            cur as int,
            1,
            paths_view(old(out).paths@),
        ) == Ok::<(int, Seq<PathS>), ErrS>((r->Ok_0 as int, paths_view(final(out).paths@))),
        r is Err ==> r->Err_0 is Syntax && spec_scan_block(
            toks_view(toks@),
            pos as int,
            cur as int,
            1,
            paths_view(old(out).paths@),
        ) == Err::<(int, Seq<PathS>), ErrS>(err_view(r->Err_0)),
{
    let ghost tv = toks_view(toks@);
    let n = toks.len();
    let mut i = pos;
    let mut depth: usize = 1;
    loop
        invariant
            1 <= pos <= i <= n,
            n == toks@.len(),
            tv == toks_view(toks@),
            1 <= depth <= 1 + i - pos,
            wf_parsed(out),
            out.items@ == old(out).items@,
            out.trait_uses@ == old(out).trait_uses@,
            valid_scope(out.items@, cur as int),
            spec_scan_block(tv, pos as int, cur as int, 1, paths_view(old(out).paths@))
                == spec_scan_block(tv, i as int, cur as int, depth as int, paths_view(out.paths@)),
        decreases n - i,
    {
        if i >= n {
            return Err(syn_err(toks, i, ExpectedTok::CloseBrace));
        }
        let k = toks[i].kind;
        if k == TokKind::LBrace {
            depth = depth + 1;
            i = i + 1;
        } else if k == TokKind::RBrace {
            if depth == 1 {
                return Ok(i + 1);
            }
            depth = depth - 1;
            i = i + 1;
        } else if k == TokKind::Ident && i + 1 < n && toks[i + 1].kind == TokKind::PathSep {
            match parse_path(toks, i) {
                Err(e) => {
                    return Err(e);
                },
                Ok((segs, i2, sp)) => {
                    push_path(out, segs, cur, sp);
                    i = i2;
                },
            }
        } else {
            i = i + 1;
        }
    }
}

/// Skips a trait body, balancing braces.
fn skip_braces(toks: &Vec<Token>, pos: usize) -> (r: Result<usize, CheckError>)
    requires
        1 <= pos <= toks@.len(),
    ensures
        r is Ok ==> pos < r->Ok_0 <= toks@.len() && spec_skip(toks_view(toks@), pos as int, 1)
            == Ok::<int, ErrS>(r->Ok_0 as int),
        r is Err ==> r->Err_0 is Syntax && spec_skip(toks_view(toks@), pos as int, 1) == Err::<
            int,
            ErrS,
        >(err_view(r->Err_0)),
{
    let ghost tv = toks_view(toks@);
    let n = toks.len();
    let mut i = pos;
    let mut depth: usize = 1;
    loop
        invariant
            1 <= pos <= i <= n,
            n == toks@.len(),
            tv == toks_view(toks@),
            1 <= depth <= 1 + i - pos,
            spec_skip(tv, pos as int, 1) == spec_skip(tv, i as int, depth as int),
        decreases n - i,
    {
        if i >= n {
            return Err(syn_err(toks, i, ExpectedTok::CloseBrace));
        }
        let k = toks[i].kind;
        if k == TokKind::LBrace {
            depth = depth + 1;
        } else if k == TokKind::RBrace {
            if depth == 1 {
                return Ok(i + 1);
            }
            depth = depth - 1;
        }
        i = i + 1;
    }
}

/// One item heading at `pos` in module `cur`: an optional export
/// marker, then a module heading, a function, a trait declaration or a
/// type alias.  Yields the position past the item, the index of the
/// module just opened if the item was one, and the grown parse.
pub open spec fn spec_item(ts: Seq<TokS>, pos: int, cur: int, out: ParsedS) -> Result<
    (int, Option<int>, ParsedS),
    ErrS,
> {
    if !(0 <= pos < ts.len()) {
        Err(spec_syn(ts, pos, ExpectedTok::ItemStart))
    } else {
        let exported = ts[pos].kind == TokKind::KwPub;
        let p: int = if exported {
            pos + 1
        } else {
            pos
        };
        if p >= ts.len() {
            Err(spec_syn(ts, p, ExpectedTok::ItemStart))
        } else if ts[p].kind == TokKind::KwMod {
            if p + 1 >= ts.len() || ts[p + 1].kind != TokKind::Ident {
                Err(spec_syn(ts, p + 1, ExpectedTok::Name))
            } else if p + 2 >= ts.len() || ts[p + 2].kind != TokKind::LBrace {
                Err(spec_syn(ts, p + 2, ExpectedTok::OpenBrace))
            } else {
                let id = out.items.len() as int;
                Ok(
                    (
                        p + 3,
                        Some(id),
                        ParsedS {
                            items: out.items.push(
                                ItemS {
                                    kind: ItemKind::Module,
                                    name: ts[p + 1].name,
                                    exported,
                                    parent: cur,
                                    span: ts[p + 1].span,
                                },
                            ),
                            ..out
                        },
                    ),
                )
            }
        } else if ts[p].kind == TokKind::KwFn {
            if p + 1 >= ts.len() || ts[p + 1].kind != TokKind::Ident {
                Err(spec_syn(ts, p + 1, ExpectedTok::Name))
            } else {
                let out1 = ParsedS {
                    items: out.items.push(
                        ItemS {
                            kind: ItemKind::Function,
                            name: ts[p + 1].name,
                            exported,
                            parent: cur,
                            span: ts[p + 1].span,
                        },
                    ),
                    ..out
                };
                match spec_scan_sig(
                    ts,
                    p + 2,
                    cur,
                    0,
                    TokKind::Comma,
                    TokKind::LBrace,
                    ExpectedTok::OpenBrace,
                    out1.paths,
                    out1.uses,
                ) {
                    Err(e) => Err(e),
                    Ok((i2, ps2, us2)) => match spec_scan_block(ts, i2, cur, 1, ps2) {
                        Err(e) => Err(e),
                        Ok((i3, ps3)) => Ok(
                            (i3, None, ParsedS { items: out1.items, paths: ps3, uses: us2 }),
                        ),
                    },
                }
            }
        } else if ts[p].kind == TokKind::KwTrait {
            if p + 1 >= ts.len() || ts[p + 1].kind != TokKind::Ident {
                Err(spec_syn(ts, p + 1, ExpectedTok::Name))
            } else if p + 2 >= ts.len() || ts[p + 2].kind != TokKind::LBrace {
                Err(spec_syn(ts, p + 2, ExpectedTok::OpenBrace))
            } else {
                let out1 = ParsedS {
                    items: out.items.push(
                        ItemS {
                            kind: ItemKind::TraitDecl,
                            name: ts[p + 1].name,
                            exported,
                            parent: cur,
                            span: ts[p + 1].span,
                        },
                    ),
                    ..out
                };
                match spec_skip(ts, p + 3, 1) {
                    Err(e) => Err(e),
                    Ok(i2) => Ok((i2, None, out1)),
                }
            }
        } else if ts[p].kind == TokKind::KwType {
            if p + 1 >= ts.len() || ts[p + 1].kind != TokKind::Ident {
                Err(spec_syn(ts, p + 1, ExpectedTok::Name))
            } else if p + 2 >= ts.len() || ts[p + 2].kind != TokKind::AssignSign {
                Err(spec_syn(ts, p + 2, ExpectedTok::AssignSign))
            } else {
                let out1 = ParsedS {
                    items: out.items.push(
                        ItemS {
                            kind: ItemKind::TypeAlias,
                            name: ts[p + 1].name,
                            exported,
                            parent: cur,
                            span: ts[p + 1].span,
                        },
                    ),
                    ..out
                };
                match spec_scan_sig(
                    ts,
                    p + 3,
                    cur,
                    0,
                    TokKind::Comma,
                    TokKind::Semi,
                    ExpectedTok::Semicolon,
                    out1.paths,
                    out1.uses,
                ) {
                    Err(e) => Err(e),
                    Ok((i2, ps2, us2)) => Ok(
                        (i2, None, ParsedS { items: out1.items, paths: ps2, uses: us2 }),
                    ),
                }
            }
        } else {
            Err(spec_syn(ts, p, ExpectedTok::ItemStart))
        }
    }
}

/// The mathematical value of an optional module index.
pub open spec fn opt_view(o: Option<usize>) -> Option<int> {
    match o {
        Some(u) => Some(u as int),
        None => None,
    }
}

/// The dispatch facts parse_item establishes before a keyword branch.
pub open spec fn item_head(ts: Seq<TokS>, pos: int, p: int, exported: bool) -> bool {
    &&& 0 <= pos < ts.len()
    &&& exported == (ts[pos].kind == TokKind::KwPub)
    &&& p == if exported { pos + 1 } else { pos }
    &&& p < ts.len()
}

/// Reads a module heading.
#[verifier::rlimit(100)]
fn item_mod(toks: &Vec<Token>, pos: usize, p: usize, exported: bool, cur: usize, out: &mut Parsed)
    -> (r: Result<(usize, Option<usize>), CheckError>)
    requires
        item_head(toks_view(toks@), pos as int, p as int, exported),
        toks_view(toks@)[p as int].kind == TokKind::KwMod,
        wf_parsed(old(out)),
        valid_scope(old(out).items@, cur as int),
    ensures
        wf_parsed(final(out)),
        forall|m: int| valid_scope(old(out).items@, m) ==> valid_scope(final(out).items@, m),
        r is Ok ==> pos < r->Ok_0.0 <= toks@.len(),
        (r is Ok && r->Ok_0.1 is Some) ==> valid_scope(
            final(out).items@,
            r->Ok_0.1->Some_0 as int,
        ),
        r is Ok ==> spec_item(toks_view(toks@), pos as int, cur as int, parsed_view(old(out)))
            == Ok::<(int, Option<int>, ParsedS), ErrS>(
            (r->Ok_0.0 as int, opt_view(r->Ok_0.1), parsed_view(final(out))),
        ),
        r is Err ==> r->Err_0 is Syntax && spec_item(
            toks_view(toks@),
            pos as int,
            cur as int,
            parsed_view(old(out)),
        ) == Err::<(int, Option<int>, ParsedS), ErrS>(err_view(r->Err_0)),
{
    let ghost tv = toks_view(toks@);
    let n = toks.len();
    if p + 1 >= n || !(toks[p + 1].kind == TokKind::Ident) {
        return Err(syn_err(toks, p + 1, ExpectedTok::Name));
    }
    if p + 2 >= n || !(toks[p + 2].kind == TokKind::LBrace) {
        return Err(syn_err(toks, p + 2, ExpectedTok::OpenBrace));
    }
    let name = copy_bytes(&toks[p + 1].name);
    let id = push_item(out, ItemKind::Module, name, exported, cur, toks[p + 1].span);
    proof {
        assert(items_view(out.items@) =~= parsed_view(old(out)).items.push(
            ItemS {
                kind: ItemKind::Module,
                name: tv[p + 1].name,
                exported,
                parent: cur as int,
                span: tv[p + 1].span,
            },
        ));
    }
    Ok((p + 3, Some(id)))
}

/// Reads a function item after the dispatch.
#[verifier::rlimit(100)]
fn item_fn(toks: &Vec<Token>, pos: usize, p: usize, exported: bool, cur: usize, out: &mut Parsed)
    -> (r: Result<(usize, Option<usize>), CheckError>)
    requires
        item_head(toks_view(toks@), pos as int, p as int, exported),
        toks_view(toks@)[p as int].kind == TokKind::KwFn,
        wf_parsed(old(out)),
        valid_scope(old(out).items@, cur as int),
    ensures
        wf_parsed(final(out)),
        forall|m: int| valid_scope(old(out).items@, m) ==> valid_scope(final(out).items@, m),
        r is Ok ==> pos < r->Ok_0.0 <= toks@.len(),
        r is Ok ==> r->Ok_0.1 is None,
        r is Ok ==> spec_item(toks_view(toks@), pos as int, cur as int, parsed_view(old(out)))
            == Ok::<(int, Option<int>, ParsedS), ErrS>(
            (r->Ok_0.0 as int, opt_view(r->Ok_0.1), parsed_view(final(out))),
        ),
        r is Err ==> r->Err_0 is Syntax && spec_item(
            toks_view(toks@),
            pos as int,
            cur as int,
            parsed_view(old(out)),
        ) == Err::<(int, Option<int>, ParsedS), ErrS>(err_view(r->Err_0)),
{
    let ghost tv = toks_view(toks@);
    let n = toks.len();
    if p + 1 >= n || !(toks[p + 1].kind == TokKind::Ident) {
        return Err(syn_err(toks, p + 1, ExpectedTok::Name));
    }
    let name = copy_bytes(&toks[p + 1].name);
    push_item(out, ItemKind::Function, name, exported, cur, toks[p + 1].span);
    let ghost out1 = ParsedS {
        items: parsed_view(old(out)).items.push(
            ItemS {
                kind: ItemKind::Function,
                name: tv[p + 1].name,
                exported,
                parent: cur as int,
                span: tv[p + 1].span,
            },
        ),
        ..parsed_view(old(out))
    };
    proof {
        assert(items_view(out.items@) =~= out1.items);
        assert(parsed_view(out) == out1);
    }
    match scan_sig(toks, p + 2, cur, out, TokKind::LBrace, ExpectedTok::OpenBrace) {
        Err(e) => Err(e),
        Ok(i2) => match scan_block(toks, i2, cur, out) {
            Err(e) => Err(e),
            Ok(i3) => Ok((i3, None)),
        },
    }
}

/// Reads a trait declaration after the dispatch.
#[verifier::rlimit(100)]
fn item_trait(toks: &Vec<Token>, pos: usize, p: usize, exported: bool, cur: usize, out: &mut Parsed)
    -> (r: Result<(usize, Option<usize>), CheckError>)
    requires
        item_head(toks_view(toks@), pos as int, p as int, exported),
        toks_view(toks@)[p as int].kind == TokKind::KwTrait,
        wf_parsed(old(out)),
        valid_scope(old(out).items@, cur as int),
    ensures
        wf_parsed(final(out)),
        forall|m: int| valid_scope(old(out).items@, m) ==> valid_scope(final(out).items@, m),
        r is Ok ==> pos < r->Ok_0.0 <= toks@.len(),
        r is Ok ==> r->Ok_0.1 is None,
        r is Ok ==> spec_item(toks_view(toks@), pos as int, cur as int, parsed_view(old(out)))
            == Ok::<(int, Option<int>, ParsedS), ErrS>(
            (r->Ok_0.0 as int, opt_view(r->Ok_0.1), parsed_view(final(out))),
        ),
        r is Err ==> r->Err_0 is Syntax && spec_item(
            toks_view(toks@),
            pos as int,
            cur as int,
            parsed_view(old(out)),
        ) == Err::<(int, Option<int>, ParsedS), ErrS>(err_view(r->Err_0)),
{
    let ghost tv = toks_view(toks@);
    let n = toks.len();
    if p + 1 >= n || !(toks[p + 1].kind == TokKind::Ident) {
        return Err(syn_err(toks, p + 1, ExpectedTok::Name));
    }
    if p + 2 >= n || !(toks[p + 2].kind == TokKind::LBrace) {
        return Err(syn_err(toks, p + 2, ExpectedTok::OpenBrace));
    }
    let name = copy_bytes(&toks[p + 1].name);
    push_item(out, ItemKind::TraitDecl, name, exported, cur, toks[p + 1].span);
    proof {
        assert(items_view(out.items@) =~= parsed_view(old(out)).items.push(
            ItemS {
                kind: ItemKind::TraitDecl,
                name: tv[p + 1].name,
                exported,
                parent: cur as int,
                span: tv[p + 1].span,
            },
        ));
    }
    match skip_braces(toks, p + 3) {
        Err(e) => Err(e),
        Ok(i2) => Ok((i2, None)),
    }
}

/// Reads a type alias after the dispatch.
#[verifier::rlimit(100)]
fn item_type(toks: &Vec<Token>, pos: usize, p: usize, exported: bool, cur: usize, out: &mut Parsed)
    -> (r: Result<(usize, Option<usize>), CheckError>)
    requires
        item_head(toks_view(toks@), pos as int, p as int, exported),
        toks_view(toks@)[p as int].kind == TokKind::KwType,
        wf_parsed(old(out)),
        valid_scope(old(out).items@, cur as int),
    ensures
        wf_parsed(final(out)),
        forall|m: int| valid_scope(old(out).items@, m) ==> valid_scope(final(out).items@, m),
        r is Ok ==> pos < r->Ok_0.0 <= toks@.len(),
        r is Ok ==> r->Ok_0.1 is None,
        r is Ok ==> spec_item(toks_view(toks@), pos as int, cur as int, parsed_view(old(out)))
            == Ok::<(int, Option<int>, ParsedS), ErrS>(
            (r->Ok_0.0 as int, opt_view(r->Ok_0.1), parsed_view(final(out))),
        ),
        r is Err ==> r->Err_0 is Syntax && spec_item(
            toks_view(toks@),
            pos as int,
            cur as int,
            parsed_view(old(out)),
        ) == Err::<(int, Option<int>, ParsedS), ErrS>(err_view(r->Err_0)),
{
    let ghost tv = toks_view(toks@);
    let n = toks.len();
    if p + 1 >= n || !(toks[p + 1].kind == TokKind::Ident) {
        return Err(syn_err(toks, p + 1, ExpectedTok::Name));
    }
    if p + 2 >= n || !(toks[p + 2].kind == TokKind::AssignSign) {
        return Err(syn_err(toks, p + 2, ExpectedTok::AssignSign));
    }
    let name = copy_bytes(&toks[p + 1].name);
    push_item(out, ItemKind::TypeAlias, name, exported, cur, toks[p + 1].span);
    proof {
        assert(items_view(out.items@) =~= parsed_view(old(out)).items.push(
            ItemS {
                kind: ItemKind::TypeAlias,
                name: tv[p + 1].name,
                exported,
                parent: cur as int,
                span: tv[p + 1].span,
            },
        ));
    }
    match scan_sig(toks, p + 3, cur, out, TokKind::Semi, ExpectedTok::Semicolon) {
        Err(e) => Err(e),
        Ok(i2) => Ok((i2, None)),
    }
}

/// Reads one item heading at `pos` in module `cur`.
fn parse_item(toks: &Vec<Token>, pos: usize, cur: usize, out: &mut Parsed) -> (r: Result<
    (usize, Option<usize>),
    CheckError,
>)
    requires
        pos < toks@.len(),
        wf_parsed(old(out)),
        valid_scope(old(out).items@, cur as int),
    ensures
        wf_parsed(final(out)),
        forall|m: int| valid_scope(old(out).items@, m) ==> valid_scope(final(out).items@, m),
        r is Ok ==> pos < r->Ok_0.0 <= toks@.len(),
        (r is Ok && r->Ok_0.1 is Some) ==> valid_scope(
            final(out).items@,
            r->Ok_0.1->Some_0 as int,
        ),
        r is Ok ==> spec_item(toks_view(toks@), pos as int, cur as int, parsed_view(old(out)))
            == Ok::<(int, Option<int>, ParsedS), ErrS>(
            (r->Ok_0.0 as int, opt_view(r->Ok_0.1), parsed_view(final(out))),
        ),
        r is Err ==> r->Err_0 is Syntax && spec_item(
            toks_view(toks@),
            pos as int,
            cur as int,
            parsed_view(old(out)),
        ) == Err::<(int, Option<int>, ParsedS), ErrS>(err_view(r->Err_0)),
{
    let n = toks.len();
    let k = toks[pos].kind;
    let (exported, p): (bool, usize) = if k == TokKind::KwPub {
        (true, pos + 1)
    } else {
        (false, pos)
    };
    if p >= n {
        return Err(syn_err(toks, p, ExpectedTok::ItemStart));
    }
    let k2 = toks[p].kind;
    if k2 == TokKind::KwMod {
        item_mod(toks, pos, p, exported, cur, out)
    } else if k2 == TokKind::KwFn {
        item_fn(toks, pos, p, exported, cur, out)
    } else if k2 == TokKind::KwTrait {
        item_trait(toks, pos, p, exported, cur, out)
    } else if k2 == TokKind::KwType {
        item_type(toks, pos, p, exported, cur, out)
    } else {
        Err(syn_err(toks, p, ExpectedTok::ItemStart))
    }
}

/// The mathematical value of the module stack.
pub open spec fn stack_view(s: Seq<usize>) -> Seq<int> {
    s.map_values(|u: usize| u as int)
}

/// The whole parse from one state on: `pos` in the tokens, `cur` the
/// enclosing module, `stack` the modules still open around it, `out`
/// the parse so far.  Every step consumes at least one token, so the
/// token count bounds the steps; `fuel` carries that bound for the
/// recursion and never runs out when it starts at one more than the
/// tokens left.
pub open spec fn spec_run(
    ts: Seq<TokS>,
    pos: int,
    cur: int,
    stack: Seq<int>,
    out: ParsedS,
    fuel: nat,
) -> Result<ParsedS, ErrS>
    decreases fuel,
{
    if pos >= ts.len() {
        if stack.len() > 0 {
            Err(spec_syn(ts, ts.len() as int, ExpectedTok::CloseBrace))
        } else {
            Ok(out)
        }
    } else if pos < 0 || fuel == 0 {
        Err(spec_syn(ts, pos, ExpectedTok::ItemStart))
    } else if ts[pos].kind == TokKind::RBrace {
        if stack.len() == 0 {
            Err(spec_syn(ts, pos, ExpectedTok::ItemStart))
        } else {
            spec_run(ts, pos + 1, stack.last(), stack.drop_last(), out, (fuel - 1) as nat)
        }
    } else {
        match spec_item(ts, pos, cur, out) {
            Err(e) => Err(e),
            Ok((p2, opened, out2)) => {
                let cur2: int = match opened {
                    Some(id) => id,
                    None => cur,
                };
                let stack2: Seq<int> = match opened {
                    Some(_) => stack.push(cur),
                    None => stack,
                };
                spec_run(ts, p2, cur2, stack2, out2, (fuel - 1) as nat)
            },
        }
    }
}

/// The root-only parse every fixture starts from.
pub open spec fn spec_root() -> ParsedS {
    ParsedS {
        items: seq![
            ItemS {
                kind: ItemKind::Module,
                name: Seq::empty(),
                exported: false,
                parent: 0,
                span: Span { lo: 0, hi: 0 },
            },
        ],
        paths: Seq::empty(),
        uses: Seq::empty(),
    }
}

/// The parse of a whole token list — the parser, stated mathematically.
pub open spec fn spec_parse(ts: Seq<TokS>) -> Result<ParsedS, ErrS> {
    spec_run(ts, 0, 0, Seq::empty(), spec_root(), (ts.len() + 1) as nat)
}

/// Parses a whole fixture's tokens into the arena, the collected paths
/// and the collected trait uses: exactly [`spec_parse`] of the tokens.
/// On success the result is well-formed; the only failure is a syntax
/// error at the first offending token.
#[verifier::rlimit(100)]
pub fn parse(toks: &Vec<Token>) -> (r: Result<Parsed, CheckError>)
    ensures
        r is Ok ==> wf_parsed(&r->Ok_0) && spec_parse(toks_view(toks@)) == Ok::<ParsedS, ErrS>(
            parsed_view(&r->Ok_0),
        ),
        r is Err ==> r->Err_0 is Syntax && spec_parse(toks_view(toks@)) == Err::<ParsedS, ErrS>(
            err_view(r->Err_0),
        ),
{
    let ghost tv = toks_view(toks@);
    let mut out = Parsed { items: Vec::new(), paths: Vec::new(), trait_uses: Vec::new() };
    out.items.push(
        Item {
            kind: ItemKind::Module,
            name: Vec::new(),
            exported: false,
            parent: 0,
            span: Span { lo: 0, hi: 0 },
        },
    );
    let mut stack: Vec<usize> = Vec::new();
    let mut cur: usize = 0;
    let mut pos: usize = 0;
    let n = toks.len();
    let ghost fuel: nat = (n + 1) as nat;
    proof {
        assert(out.items@.last().name@ =~= Seq::<u8>::empty());
        assert(items_view(out.items@) =~= spec_root().items);
        assert(paths_view(out.paths@) =~= spec_root().paths);
        assert(uses_view(out.trait_uses@) =~= spec_root().uses);
        assert(stack_view(stack@) =~= Seq::<int>::empty());
    }
    let ghost mut fuel = fuel;
    while pos < n
        invariant
            pos <= n,
            n == toks@.len(),
            tv == toks_view(toks@),
            fuel >= n - pos + 1,
            wf_parsed(&out),
            valid_scope(out.items@, cur as int),
            forall|s: int|
                0 <= s < stack@.len() ==> valid_scope(out.items@, #[trigger] stack@[s] as int),
            spec_run(tv, pos as int, cur as int, stack_view(stack@), parsed_view(&out), fuel)
                == spec_parse(tv),
        decreases n - pos,
    {
        let k = toks[pos].kind;
        if k == TokKind::RBrace {
            if stack.len() == 0 {
                return Err(syn_err(toks, pos, ExpectedTok::ItemStart));
            }
            let ghost old_stack = stack@;
            match stack.pop() {
                Some(m) => {
                    proof {
                        assert(stack@ =~= old_stack.drop_last());
                        assert(stack_view(stack@) =~= stack_view(old_stack).drop_last());
                        assert(stack_view(old_stack).last() == m as int);
                    }
                    cur = m;
                },
                None => {
                    proof {
                        assert(false);
                    }
                },
            }
            pos = pos + 1;
            proof {
                fuel = (fuel - 1) as nat;
            }
        } else {
            match parse_item(toks, pos, cur, &mut out) {
                Ok((p2, opened)) => {
                    pos = p2;
                    match opened {
                        Some(id) => {
                            let ghost old_stack = stack@;
                            stack.push(cur);
                            proof {
                                assert(stack_view(stack@) =~= stack_view(old_stack).push(
                                    cur as int,
                                ));
                            }
                            cur = id;
                        },
                        None => {},
                    }
                    proof {
                        fuel = (fuel - 1) as nat;
                    }
                },
                Err(e) => {
                    return Err(e);
                },
            }
        }
    }
    if stack.len() > 0 {
        proof {
            assert(stack_view(stack@).len() == stack@.len());
        }
        return Err(syn_err(toks, n, ExpectedTok::CloseBrace));
    }
    proof {
        assert(stack_view(stack@).len() == stack@.len());
    }
    Ok(out)
}

} // verus!
