//! Diagnostics come back in source order.

use vstd::prelude::*;
use crate::error::Diagnostic;
use crate::ast::{Program, Tree};
use crate::grammar::{
    diagnosis, kind_at, place, program, program_from, recovery, statement, token_at, Expected,
    Outcome, Parsed,
};
use crate::lexer::token_stream;
use crate::progress::{lemma_recovery_forward, lemma_statement_forward};
use crate::stream::{lemma_positions_monotonic, lemma_span_coverage, not_after};
use crate::tokens::Token;

verus! {

/// No diagnostic is positioned before one that precedes it in the list.
pub open spec fn in_order(diagnostics: Seq<Diagnostic>) -> bool {
    forall|a: int, b: int|
        0 <= a <= b < diagnostics.len() ==> not_after(
            (#[trigger] diagnostics[a]).at,
            (#[trigger] diagnostics[b]).at,
        )
}

/// No diagnostic is positioned after the token at index `i` or after a
/// later token.
spec fn all_before(diagnostics: Seq<Diagnostic>, toks: Seq<Token>, i: int) -> bool {
    forall|k: int, j: int|
        0 <= k < diagnostics.len() && i <= j ==> not_after(
            (#[trigger] diagnostics[k]).at,
            (#[trigger] token_at(toks, j)).position,
        )
}

/// A diagnostic points at the token it is raised for.
proof fn lemma_diagnosis_position(expected: Expected, found: Token)
    ensures
        diagnosis(expected, found).at == found.position,
{
}

/// In a token stream, a token at a later index is not positioned before one
/// at an earlier index; past the end stands the sentinel's position.
proof fn lemma_tokens_in_order(text: Seq<u8>, a: int, b: int)
    requires
        text.len() <= usize::MAX,
        0 <= a <= b,
    ensures
        not_after(
            token_at(token_stream(text), a).position,
            token_at(token_stream(text), b).position,
        ),
{
    let toks = token_stream(text);
    lemma_span_coverage(text);
    let last = toks.len() - 1;
    let x = if a < toks.len() {
        a
    } else {
        last
    };
    let y = if b < toks.len() {
        b
    } else {
        last
    };
    lemma_positions_monotonic(text, x, y);
}

proof fn lemma_in_order_from(text: Seq<u8>, i: int, acc: Outcome)
    requires
        text.len() <= usize::MAX,
        0 <= i <= token_stream(text).len(),
        in_order(acc.diagnostics),
        all_before(acc.diagnostics, token_stream(text), i),
    ensures
        in_order(program_from(token_stream(text), text, i, acc).diagnostics),
    decreases token_stream(text).len() - i,
{
    let toks = token_stream(text);
    if kind_at(toks, i) is EndOfInput {
    } else if kind_at(toks, i) is Semicolon {
        lemma_in_order_from(text, i + 1, acc);
    } else {
        lemma_statement_forward(toks, text, i);
        match statement(toks, text, i) {
            Parsed::Done { value, next } => {
                let more = Outcome { program: place(acc.program, value), ..acc };
                lemma_in_order_from(text, next, more);
            },
            Parsed::Failed { expected, at } => {
                let d = diagnosis(expected, token_at(toks, at));
                lemma_diagnosis_position(expected, token_at(toks, at));
                let found = Outcome { diagnostics: acc.diagnostics.push(d), ..acc };
                assert(in_order(found.diagnostics)) by {
                    assert forall|a: int, b: int| 0 <= a <= b < found.diagnostics.len() implies not_after(
                        (#[trigger] found.diagnostics[a]).at,
                        (#[trigger] found.diagnostics[b]).at,
                    ) by {
                        if b < acc.diagnostics.len() {
                            assert(found.diagnostics[a] == acc.diagnostics[a]);
                            assert(found.diagnostics[b] == acc.diagnostics[b]);
                        } else if a < acc.diagnostics.len() {
                            assert(found.diagnostics[a] == acc.diagnostics[a]);
                            assert(not_after(
                                acc.diagnostics[a].at,
                                token_at(toks, at).position,
                            ));
                        }
                    }
                }
                if !(kind_at(toks, at) is EndOfInput) {
                    lemma_recovery_forward(toks, i, at);
                    match recovery(toks, i, at) {
                        Some(resume) => {
                            assert(all_before(found.diagnostics, toks, resume)) by {
                                assert forall|k: int, j: int|
                                    0 <= k < found.diagnostics.len() && resume <= j implies not_after(
                                    (#[trigger] found.diagnostics[k]).at,
                                    (#[trigger] token_at(toks, j)).position,
                                ) by {
                                    if k < acc.diagnostics.len() {
                                        assert(found.diagnostics[k] == acc.diagnostics[k]);
                                    } else {
                                        lemma_tokens_in_order(text, at, j);
                                    }
                                }
                            }
                            lemma_in_order_from(text, resume, found);
                        },
                        None => {},
                    }
                }
            },
        }
    }
}

/// The diagnostics of a parse are in source order: in the list that comes
/// back, no diagnostic is positioned before one that precedes it.
pub proof fn lemma_diagnostics_in_source_order(text: Seq<u8>)
    requires
        text.len() <= usize::MAX,
    ensures
        in_order(program(token_stream(text), text).diagnostics),
{
    let empty = Outcome {
        program: Program {
            imports: Seq::<Tree>::empty(),
            consts: Seq::<Tree>::empty(),
            functions: Seq::<Tree>::empty(),
        },
        diagnostics: Seq::<Diagnostic>::empty(),
    };
    lemma_in_order_from(text, 0, empty);
}

} // verus!
