//! The lexer: fixture bytes to a token list.
//!
//! The alphabet is what the fixture grammar needs: identifiers and
//! keywords, numeric literals (digits and dots, so `5.0` is one token),
//! and the punctuation of module, function, trait and type-alias items.
//! Whitespace separates tokens.  Any other byte stops the lexer at once
//! with a syntax error pointing at it.

use vstd::prelude::*;

use crate::ast::Span;
use crate::errors::{err_view, CheckError, ErrS, ExpectedTok, FoundTok};

verus! {

/// The kind of one token.  Keywords are classified here so the parser
/// can match on kinds alone.
#[derive(Clone, Copy, PartialEq, Eq, Structural, Debug)]
pub enum TokKind {
    /// An identifier; the token carries its bytes.
    Ident,
    /// A numeric literal such as `1.0`; its value is never read.
    Num,
    KwMod,
    KwFn,
    KwPub,
    KwTrait,
    KwType,
    KwImpl,
    LBrace,
    RBrace,
    LParen,
    RParen,
    Lt,
    Gt,
    Comma,
    Semi,
    Colon,
    /// The path separator `::`.
    PathSep,
    /// The return-type arrow `->`.
    Arrow,
    AssignSign,
    Plus,
    Minus,
    Pipe,
    Amp,
    Star,
    Dot,
}

/// One token.  `name` holds the identifier's bytes and is empty for
/// every other kind.
#[derive(Clone, Debug)]
pub struct Token {
    pub kind: TokKind,
    pub name: Vec<u8>,
    pub span: Span,
}

/// ASCII codes the lexer reads, named after their characters.
pub const TAB: u8 = 9;

pub const NEWLINE: u8 = 10;

pub const CARRIAGE: u8 = 13;

pub const SPACE: u8 = 32;

pub const AMPERSAND: u8 = 38;

pub const PAREN_L: u8 = 40;

pub const PAREN_R: u8 = 41;

pub const STAR_CH: u8 = 42;

pub const PLUS_CH: u8 = 43;

pub const COMMA_CH: u8 = 44;

pub const MINUS_CH: u8 = 45;

pub const DOT_CH: u8 = 46;

pub const DIGIT_0: u8 = 48;

pub const DIGIT_9: u8 = 57;

pub const COLON_CH: u8 = 58;

pub const SEMI_CH: u8 = 59;

pub const ANGLE_L: u8 = 60;

pub const EQUALS_CH: u8 = 61;

pub const ANGLE_R: u8 = 62;

pub const UPPER_A: u8 = 65;

pub const UPPER_Z: u8 = 90;

pub const UNDERSCORE: u8 = 95;

pub const LOWER_A: u8 = 97;

pub const LOWER_B: u8 = 98;

pub const LOWER_D: u8 = 100;

pub const LOWER_E: u8 = 101;

pub const LOWER_F: u8 = 102;

pub const LOWER_I: u8 = 105;

pub const LOWER_L: u8 = 108;

pub const LOWER_M: u8 = 109;

pub const LOWER_N: u8 = 110;

pub const LOWER_O: u8 = 111;

pub const LOWER_P: u8 = 112;

pub const LOWER_R: u8 = 114;

pub const LOWER_T: u8 = 116;

pub const LOWER_U: u8 = 117;

pub const LOWER_Y: u8 = 121;

pub const LOWER_Z: u8 = 122;

pub const BRACE_L: u8 = 123;

pub const PIPE_CH: u8 = 124;

pub const BRACE_R: u8 = 125;

/// The mathematical value of one token.
pub struct TokS {
    pub kind: TokKind,
    pub name: Seq<u8>,
    pub span: Span,
}

/// The mathematical value of a token.
pub open spec fn tok_view(t: Token) -> TokS {
    TokS { kind: t.kind, name: t.name@, span: t.span }
}

/// The mathematical value of a token list.
pub open spec fn toks_view(s: Seq<Token>) -> Seq<TokS> {
    s.map_values(|t: Token| tok_view(t))
}

/// Indexing a token list's value indexes the tokens.
pub broadcast proof fn lemma_toks_view_index(s: Seq<Token>, i: int)
    requires
        0 <= i < s.len(),
    ensures
        (#[trigger] toks_view(s)[i]) == tok_view(s[i]),
{
}

/// A token list's value has the list's length.
pub broadcast proof fn lemma_toks_view_len(s: Seq<Token>)
    ensures
        (#[trigger] toks_view(s)).len() == s.len(),
{
}

/// A whitespace byte.
pub open spec fn is_space_byte(c: u8) -> bool {
    c == SPACE || c == TAB || c == NEWLINE || c == CARRIAGE
}

/// An ASCII letter or underscore.
pub open spec fn is_start_byte(c: u8) -> bool {
    LOWER_A <= c <= LOWER_Z || UPPER_A <= c <= UPPER_Z || c == UNDERSCORE
}

/// An ASCII digit.
pub open spec fn is_digit_byte(c: u8) -> bool {
    DIGIT_0 <= c <= DIGIT_9
}

/// A byte that may continue an identifier.
pub open spec fn is_cont_byte(c: u8) -> bool {
    is_start_byte(c) || is_digit_byte(c)
}

/// A byte that may continue a numeric literal.
pub open spec fn is_num_byte(c: u8) -> bool {
    is_digit_byte(c) || c == DOT_CH
}

/// An ASCII letter or underscore.
fn is_ident_start(c: u8) -> (r: bool)
    ensures
        r == is_start_byte(c),
{
    LOWER_A <= c && c <= LOWER_Z || UPPER_A <= c && c <= UPPER_Z || c == UNDERSCORE
}

/// An ASCII digit.
fn is_digit(c: u8) -> (r: bool)
    ensures
        r == is_digit_byte(c),
{
    DIGIT_0 <= c && c <= DIGIT_9
}

/// A byte that may continue an identifier.
fn is_ident_cont(c: u8) -> (r: bool)
    ensures
        r == is_cont_byte(c),
{
    is_ident_start(c) || is_digit(c)
}

/// The keyword classification of an identifier's bytes.
pub open spec fn spec_classify(s: Seq<u8>) -> TokKind {
    if s.len() == 2 && s[0] == LOWER_F && s[1] == LOWER_N {
        TokKind::KwFn
    } else if s.len() == 3 && s[0] == LOWER_M && s[1] == LOWER_O && s[2] == LOWER_D {
        TokKind::KwMod
    } else if s.len() == 3 && s[0] == LOWER_P && s[1] == LOWER_U && s[2] == LOWER_B {
        TokKind::KwPub
    } else if s.len() == 4 && s[0] == LOWER_T && s[1] == LOWER_Y && s[2] == LOWER_P && s[3]
        == LOWER_E {
        TokKind::KwType
    } else if s.len() == 4 && s[0] == LOWER_I && s[1] == LOWER_M && s[2] == LOWER_P && s[3]
        == LOWER_L {
        TokKind::KwImpl
    } else if s.len() == 5 && s[0] == LOWER_T && s[1] == LOWER_R && s[2] == LOWER_A && s[3]
        == LOWER_I && s[4] == LOWER_T {
        TokKind::KwTrait
    } else {
        TokKind::Ident
    }
}

/// Classifies a scanned identifier: one of the six keywords, or a plain
/// identifier.
fn classify(name: &Vec<u8>) -> (r: TokKind)
    ensures
        r == spec_classify(name@),
{
    let n = name.len();
    if n == 2 && name[0] == LOWER_F && name[1] == LOWER_N {
        TokKind::KwFn
    } else if n == 3 && name[0] == LOWER_M && name[1] == LOWER_O && name[2] == LOWER_D {
        TokKind::KwMod
    } else if n == 3 && name[0] == LOWER_P && name[1] == LOWER_U && name[2] == LOWER_B {
        TokKind::KwPub
    } else if n == 4 && name[0] == LOWER_T && name[1] == LOWER_Y && name[2] == LOWER_P && name[3]
        == LOWER_E {
        TokKind::KwType
    } else if n == 4 && name[0] == LOWER_I && name[1] == LOWER_M && name[2] == LOWER_P && name[3]
        == LOWER_L {
        TokKind::KwImpl
    } else if n == 5 && name[0] == LOWER_T && name[1] == LOWER_R && name[2] == LOWER_A && name[3]
        == LOWER_I && name[4] == LOWER_T {
        TokKind::KwTrait
    } else {
        TokKind::Ident
    }
}

/// The first position at or past `i` that does not continue an
/// identifier.
pub open spec fn ident_end(s: Seq<u8>, i: int) -> int
    decreases s.len() - i,
{
    if 0 <= i < s.len() && is_cont_byte(s[i]) {
        ident_end(s, i + 1)
    } else {
        i
    }
}

/// The first position at or past `i` that does not continue a numeric
/// literal.
pub open spec fn num_end(s: Seq<u8>, i: int) -> int
    decreases s.len() - i,
{
    if 0 <= i < s.len() && is_num_byte(s[i]) {
        num_end(s, i + 1)
    } else {
        i
    }
}

/// Scanning never moves backwards nor past the end.
proof fn lemma_scan_bounds(s: Seq<u8>, i: int)
    requires
        0 <= i <= s.len(),
    ensures
        i <= ident_end(s, i) <= s.len(),
        i <= num_end(s, i) <= s.len(),
    decreases s.len() - i,
{
    if i < s.len() && (is_cont_byte(s[i]) || is_num_byte(s[i])) {
        lemma_scan_bounds(s, i + 1);
    }
}

/// The punctuation token starting at `i`, with its width, if the byte
/// begins one.
pub open spec fn spec_punct(s: Seq<u8>, i: int) -> Option<(TokKind, int)> {
    let c = s[i];
    if c == COLON_CH && i + 1 < s.len() && s[i + 1] == COLON_CH {
        Some((TokKind::PathSep, 2))
    } else if c == COLON_CH {
        Some((TokKind::Colon, 1))
    } else if c == MINUS_CH && i + 1 < s.len() && s[i + 1] == ANGLE_R {
        Some((TokKind::Arrow, 2))
    } else if c == MINUS_CH {
        Some((TokKind::Minus, 1))
    } else if c == BRACE_L {
        Some((TokKind::LBrace, 1))
    } else if c == BRACE_R {
        Some((TokKind::RBrace, 1))
    } else if c == PAREN_L {
        Some((TokKind::LParen, 1))
    } else if c == PAREN_R {
        Some((TokKind::RParen, 1))
    } else if c == ANGLE_L {
        Some((TokKind::Lt, 1))
    } else if c == ANGLE_R {
        Some((TokKind::Gt, 1))
    } else if c == COMMA_CH {
        Some((TokKind::Comma, 1))
    } else if c == SEMI_CH {
        Some((TokKind::Semi, 1))
    } else if c == EQUALS_CH {
        Some((TokKind::AssignSign, 1))
    } else if c == PLUS_CH {
        Some((TokKind::Plus, 1))
    } else if c == PIPE_CH {
        Some((TokKind::Pipe, 1))
    } else if c == AMPERSAND {
        Some((TokKind::Amp, 1))
    } else if c == STAR_CH {
        Some((TokKind::Star, 1))
    } else if c == DOT_CH {
        Some((TokKind::Dot, 1))
    } else {
        None
    }
}

/// Puts one token in front of a tokenisation outcome.
pub open spec fn tok_cons(h: TokS, r: Result<Seq<TokS>, ErrS>) -> Result<Seq<TokS>, ErrS> {
    match r {
        Ok(ts) => Ok(seq![h] + ts),
        Err(e) => Err(e),
    }
}

/// The tokens of the fixture bytes from position `i` on — the lexer,
/// stated mathematically.  The only failure is a byte outside the
/// alphabet, reported at that byte.
pub open spec fn spec_tokenize_from(s: Seq<u8>, i: int) -> Result<Seq<TokS>, ErrS>
    decreases s.len() - i,
    via spec_tokenize_from_dec
{
    if i < 0 || i >= s.len() {
        Ok(Seq::empty())
    } else {
        let c = s[i];
        if is_space_byte(c) {
            spec_tokenize_from(s, i + 1)
        } else if is_start_byte(c) {
            let j = ident_end(s, i + 1);
            let name = s.subrange(i, j);
            tok_cons(
                TokS {
                    kind: spec_classify(name),
                    name,
                    span: Span { lo: i as usize, hi: j as usize },
                },
                spec_tokenize_from(s, j),
            )
        } else if is_digit_byte(c) {
            let j = num_end(s, i + 1);
            tok_cons(
                TokS {
                    kind: TokKind::Num,
                    name: Seq::empty(),
                    span: Span { lo: i as usize, hi: j as usize },
                },
                spec_tokenize_from(s, j),
            )
        } else {
            match spec_punct(s, i) {
                Some((k, w)) => tok_cons(
                    TokS {
                        kind: k,
                        name: Seq::empty(),
                        span: Span { lo: i as usize, hi: (i + w) as usize },
                    },
                    spec_tokenize_from(s, i + w),
                ),
                None => Err(
                    ErrS::SyntaxS {
                        span: Span { lo: i as usize, hi: (i + 1) as usize },
                        expected: ExpectedTok::KnownChar,
                        found: FoundTok::BadChar,
                    },
                ),
            }
        }
    }
}

#[via_fn]
proof fn spec_tokenize_from_dec(s: Seq<u8>, i: int) {
    if 0 <= i < s.len() {
        lemma_scan_bounds(s, i + 1);
    }
}

/// The tokens of a whole fixture.
pub open spec fn spec_tokenize(s: Seq<u8>) -> Result<Seq<TokS>, ErrS> {
    spec_tokenize_from(s, 0)
}

/// Puts an already-lexed prefix in front of a tokenisation outcome.
pub open spec fn tok_app(p: Seq<TokS>, r: Result<Seq<TokS>, ErrS>) -> Result<Seq<TokS>, ErrS> {
    match r {
        Ok(ts) => Ok(p + ts),
        Err(e) => Err(e),
    }
}

/// Prepending a token and then a prefix is prepending the longer prefix.
proof fn lemma_tok_app_cons(p: Seq<TokS>, h: TokS, x: Result<Seq<TokS>, ErrS>)
    ensures
        tok_app(p, tok_cons(h, x)) == tok_app(p.push(h), x),
{
    match x {
        Ok(ts) => {
            assert(p + (seq![h] + ts) =~= p.push(h) + ts);
        },
        Err(_) => {},
    }
}

/// Turns fixture bytes into tokens: exactly [`spec_tokenize`] of the
/// input.  The only failure is a byte outside the lexer's alphabet,
/// reported as a syntax error at that byte.
pub fn tokenize(src: &Vec<u8>) -> (r: Result<Vec<Token>, CheckError>)
    ensures
        r is Ok ==> spec_tokenize(src@) == Ok::<Seq<TokS>, ErrS>(toks_view(r->Ok_0@)),
        r is Err ==> spec_tokenize(src@) == Err::<Seq<TokS>, ErrS>(err_view(r->Err_0)),
        r is Err ==> r->Err_0 is Syntax,
{
    let n = src.len();
    let mut toks: Vec<Token> = Vec::new();
    let mut i: usize = 0;
    while i < n
        invariant
            i <= n,
            n == src@.len(),
            tok_app(toks_view(toks@), spec_tokenize_from(src@, i as int)) == spec_tokenize(src@),
        decreases n - i,
    {
        let ghost prefix = toks_view(toks@);
        let c = src[i];
        if c == SPACE || c == TAB || c == NEWLINE || c == CARRIAGE {
            i = i + 1;
        } else if is_ident_start(c) {
            let start = i;
            i = i + 1;
            while i < n && is_ident_cont(src[i])
                invariant
                    start < i <= n,
                    n == src@.len(),
                    ident_end(src@, start + 1) == ident_end(src@, i as int),
                decreases n - i,
            {
                i = i + 1;
            }
            proof {
                assert(ident_end(src@, i as int) == i);
            }
            let mut name: Vec<u8> = Vec::new();
            let mut j = start;
            while j < i
                invariant
                    start <= j <= i <= n,
                    n == src@.len(),
                    name@ == src@.subrange(start as int, j as int),
                decreases i - j,
            {
                name.push(src[j]);
                proof {
                    assert(name@ =~= src@.subrange(start as int, j + 1));
                }
                j = j + 1;
            }
            let kind = classify(&name);
            let tok = Token { kind, name, span: Span { lo: start, hi: i } };
            let ghost head = tok_view(tok);
            proof {
                assert(spec_tokenize_from(src@, start as int) == tok_cons(
                    head,
                    spec_tokenize_from(src@, i as int),
                ));
                lemma_tok_app_cons(prefix, head, spec_tokenize_from(src@, i as int));
            }
            toks.push(tok);
            proof {
                assert(toks_view(toks@) =~= prefix.push(head));
            }
        } else if is_digit(c) {
            let start = i;
            i = i + 1;
            while i < n && (is_digit(src[i]) || src[i] == DOT_CH)
                invariant
                    start < i <= n,
                    n == src@.len(),
                    num_end(src@, start + 1) == num_end(src@, i as int),
                decreases n - i,
            {
                i = i + 1;
            }
            proof {
                assert(num_end(src@, i as int) == i);
            }
            let tok = Token {
                kind: TokKind::Num,
                name: Vec::new(),
                span: Span { lo: start, hi: i },
            };
            let ghost head = tok_view(tok);
            proof {
                assert(head.name =~= Seq::<u8>::empty());
                assert(spec_tokenize_from(src@, start as int) == tok_cons(
                    head,
                    spec_tokenize_from(src@, i as int),
                ));
                lemma_tok_app_cons(prefix, head, spec_tokenize_from(src@, i as int));
            }
            toks.push(tok);
            proof {
                assert(toks_view(toks@) =~= prefix.push(head));
            }
        } else {
            let two = i + 1 < n;
            let (kind, width): (TokKind, usize) = if c == COLON_CH && two && src[i + 1] == COLON_CH {
                (TokKind::PathSep, 2)
            } else if c == COLON_CH {
                (TokKind::Colon, 1)
            } else if c == MINUS_CH && two && src[i + 1] == ANGLE_R {
                (TokKind::Arrow, 2)
            } else if c == MINUS_CH {
                (TokKind::Minus, 1)
            } else if c == BRACE_L {
                (TokKind::LBrace, 1)
            } else if c == BRACE_R {
                (TokKind::RBrace, 1)
            } else if c == PAREN_L {
                (TokKind::LParen, 1)
            } else if c == PAREN_R {
                (TokKind::RParen, 1)
            } else if c == ANGLE_L {
                (TokKind::Lt, 1)
            } else if c == ANGLE_R {
                (TokKind::Gt, 1)
            } else if c == COMMA_CH {
                (TokKind::Comma, 1)
            } else if c == SEMI_CH {
                (TokKind::Semi, 1)
            } else if c == EQUALS_CH {
                (TokKind::AssignSign, 1)
            } else if c == PLUS_CH {
                (TokKind::Plus, 1)
            } else if c == PIPE_CH {
                (TokKind::Pipe, 1)
            } else if c == AMPERSAND {
                (TokKind::Amp, 1)
            } else if c == STAR_CH {
                (TokKind::Star, 1)
            } else if c == DOT_CH {
                (TokKind::Dot, 1)
            } else {
                let e = CheckError::Syntax {
                    span: Span { lo: i, hi: i + 1 },
                    expected: ExpectedTok::KnownChar,
                    found: FoundTok::BadChar,
                };
                proof {
                    assert(spec_punct(src@, i as int) is None);
                    assert(spec_tokenize_from(src@, i as int) == Err::<Seq<TokS>, ErrS>(
                        err_view(e),
                    ));
                }
                return Err(e);
            };
            let tok = Token { kind, name: Vec::new(), span: Span { lo: i, hi: i + width } };
            let ghost head = tok_view(tok);
            proof {
                assert(head.name =~= Seq::<u8>::empty());
                assert(spec_punct(src@, i as int) == Some((kind, width as int)));
                assert(spec_tokenize_from(src@, i as int) == tok_cons(
                    head,
                    spec_tokenize_from(src@, i + width),
                ));
                lemma_tok_app_cons(prefix, head, spec_tokenize_from(src@, i + width));
            }
            toks.push(tok);
            proof {
                assert(toks_view(toks@) =~= prefix.push(head));
            }
            i = i + width;
        }
    }
    proof {
        assert(spec_tokenize_from(src@, n as int) == Ok::<Seq<TokS>, ErrS>(Seq::empty()));
        assert(toks_view(toks@) + Seq::<TokS>::empty() =~= toks_view(toks@));
    }
    Ok(toks)
}

} // verus!
