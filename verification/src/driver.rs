//! The acceptance driver.
//!
//! For each fixture: lex, parse, build the symbol table, resolve every
//! collected path, then check every collected trait use — in that order,
//! stopping the fixture at the first failing stage.  The result is a
//! report that passes exactly when no error was found.  A fixture's
//! failure never touches the reports of its siblings, and the exit code
//! a batch yields is the number of failing fixtures, capped at 255.

use vstd::prelude::*;

use crate::ast::{parsed_view, wf_parsed, Parsed, ParsedS};
use crate::bounds::{check_bounds, errs_of_uses};
use crate::errors::{err_view, errs_view, report_wf, CheckError, ErrS, Report, Status};
use crate::lexer::{spec_tokenize, tokenize};
use crate::parser::{parse, spec_parse};
use crate::resolve::{errs_of_paths, resolve_all};
use crate::symtab::{build_symbol_table, first_dup_err, has_dup};

verus! {

/// The errors a well-formed parse yields: the first duplicate name if
/// any module has one; otherwise every unresolved or ambiguous path;
/// otherwise every unknown trait.  Empty exactly when the fixture is
/// accepted.
pub open spec fn parsed_errs(p: Parsed) -> Seq<ErrS> {
    if has_dup(p.items@) {
        seq![first_dup_err(p.items@)]
    } else {
        let re = errs_of_paths(p.items@, p.paths@);
        if re.len() > 0 {
            re
        } else {
            errs_of_uses(p.items@, p.trait_uses@)
        }
    }
}

/// Runs the three analysis stages over one parsed fixture,
/// short-circuiting at the first failing stage.  The report's errors
/// are exactly [`parsed_errs`] of the input, so checking a parse twice
/// yields the same report.
pub fn check_parsed(p: Parsed) -> (r: Report)
    requires
        wf_parsed(&p),
    ensures
        report_wf(&r),
        errs_view(r.errors@) == parsed_errs(p),
{
    let Parsed { items, paths, trait_uses } = p;
    match build_symbol_table(items) {
        Err(e) => {
            let mut errors: Vec<CheckError> = Vec::new();
            errors.push(e);
            proof {
                assert(errs_view(errors@) =~= parsed_errs(p));
            }
            Report { status: Status::Fail, errors }
        },
        Ok(tab) => {
            let errors = resolve_all(&tab, &paths);
            if errors.len() > 0 {
                Report { status: Status::Fail, errors }
            } else {
                let errors = check_bounds(&tab, &trait_uses);
                if errors.len() > 0 {
                    Report { status: Status::Fail, errors }
                } else {
                    Report { status: Status::Pass, errors }
                }
            }
        },
    }
}

/// Builds the failing report of a single lexing or parsing error.
fn fail_with(e: CheckError) -> (r: Report)
    ensures
        report_wf(&r),
        r.status == Status::Fail,
        errs_view(r.errors@) == seq![err_view(e)],
{
    let mut errors: Vec<CheckError> = Vec::new();
    errors.push(e);
    proof {
        assert(errs_view(errors@) =~= seq![err_view(e)]);
    }
    Report { status: Status::Fail, errors }
}

/// One fixture's report, tied to its bytes: the lexer's or the
/// parser's error where one stops the fixture; otherwise the analysis
/// errors of a parse whose value is exactly the spec-level parse of
/// the text.
pub open spec fn report_matches(src: Seq<u8>, r: Report) -> bool {
    match spec_tokenize(src) {
        Err(e) => errs_view(r.errors@) == seq![e],
        Ok(tks) => match spec_parse(tks) {
            Err(e) => errs_view(r.errors@) == seq![e],
            Ok(pg) => exists|p: Parsed|
                parsed_view(&p) == pg && errs_view(r.errors@) == parsed_errs(p),
        },
    }
}

/// Runs the whole acceptance pipeline on one fixture's bytes: a passing
/// report carries no error; a failing one carries every error found up
/// to the first failing stage.
pub fn check_fixture(src: &Vec<u8>) -> (r: Report)
    ensures
        report_wf(&r),
        report_matches(src@, r),
{
    match tokenize(src) {
        Err(e) => fail_with(e),
        Ok(toks) => match parse(&toks) {
            Err(e) => fail_with(e),
            Ok(p) => {
                let ghost gp = p;
                let r = check_parsed(p);
                proof {
                    let pg = spec_parse(crate::lexer::toks_view(toks@))->Ok_0;
                    assert(parsed_view(&gp) == pg && errs_view(r.errors@) == parsed_errs(gp));
                }
                r
            },
        },
    }
}

/// Checks a batch of fixtures, each in isolation: one report per
/// fixture, in order, and no fixture's failure touches another's
/// report.
pub fn check_fixtures(fixtures: &Vec<Vec<u8>>) -> (rs: Vec<Report>)
    ensures
        rs@.len() == fixtures@.len(),
        forall|i: int| 0 <= i < rs@.len() ==> report_wf(&(#[trigger] rs@[i])),
        forall|i: int|
            0 <= i < rs@.len() ==> report_matches(fixtures@[i]@, #[trigger] rs@[i]),
{
    let n = fixtures.len();
    let mut rs: Vec<Report> = Vec::new();
    let mut k: usize = 0;
    while k < n
        invariant
            k <= n,
            n == fixtures@.len(),
            rs@.len() == k,
            forall|i: int| 0 <= i < rs@.len() ==> report_wf(&(#[trigger] rs@[i])),
            forall|i: int|
                0 <= i < rs@.len() ==> report_matches(fixtures@[i]@, #[trigger] rs@[i]),
        decreases n - k,
    {
        let r = check_fixture(&fixtures[k]);
        rs.push(r);
        k = k + 1;
    }
    rs
}

/// How many reports of a batch failed.
pub open spec fn count_fails(rs: Seq<Report>) -> nat
    decreases rs.len(),
{
    if rs.len() == 0 {
        0
    } else {
        count_fails(rs.drop_last()) + (if rs.last().status == Status::Fail {
            1nat
        } else {
            0nat
        })
    }
}

/// The exit code of a batch: the number of failing fixtures, capped at
/// 255 so it always fits the process interface.
pub fn exit_code(rs: &Vec<Report>) -> (c: u8)
    ensures
        count_fails(rs@) <= 255 ==> c == count_fails(rs@),
        count_fails(rs@) > 255 ==> c == 255,
{
    let n = rs.len();
    let mut c: u8 = 0;
    let mut k: usize = 0;
    while k < n
        invariant
            k <= n,
            n == rs@.len(),
            count_fails(rs@.take(k as int)) <= 255 ==> c == count_fails(rs@.take(k as int)),
            count_fails(rs@.take(k as int)) > 255 ==> c == 255,
        decreases n - k,
    {
        proof {
            assert(rs@.take(k + 1).drop_last() =~= rs@.take(k as int));
            assert(rs@.take(k + 1).last() == rs@[k as int]);
        }
        let failed = rs[k].status == Status::Fail;
        if failed && c < 255 {
            c = c + 1;
        }
        k = k + 1;
    }
    proof {
        assert(rs@.take(n as int) =~= rs@);
    }
    c
}

} // verus!
