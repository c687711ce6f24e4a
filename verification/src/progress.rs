//! Every construct of the grammar covers at least one token and ends inside
//! the token sequence, and a failure lies at or after the index at which
//! the construct was looked for.

use vstd::prelude::*;
use crate::ast::{NodeType, Tree};
use crate::grammar::{
    block, block_end, block_item, block_items, call_args, const_name, const_statement,
    expression, function, import_members, import_path, import_statement, kind_at, member_list,
    name_at, next_semicolon, parameter_list, parameters, recovery, return_type, signature,
    statement, type_at, value, Parsed,
};
use crate::span::Slice;
use crate::tokens::{Token, Tokens};

verus! {

/// An outcome for a construct looked for at index `i` among `len` tokens
/// moves forward: a construct ends after `i` and no later than `len`, and a
/// failure lies at or after `i`.
pub open spec fn forward<T>(p: Parsed<T>, i: int, len: int) -> bool {
    match p {
        Parsed::Done { next, .. } => i < next <= len,
        Parsed::Failed { at, .. } => i <= at,
    }
}

pub proof fn lemma_value_forward(toks: Seq<Token>, i: int)
    ensures
        forward(value(toks, i), i, toks.len() as int),
    decreases toks.len() - i, 0int,
{
    if kind_at(toks, i) is Identifier && kind_at(toks, i + 1) is LParen {
        lemma_call_args_forward(toks, i + 2, Seq::<Tree>::empty());
    }
}

pub proof fn lemma_call_args_forward(toks: Seq<Token>, i: int, acc: Seq<Tree>)
    ensures
        forward(call_args(toks, i, acc), i, toks.len() as int),
    decreases toks.len() - i, 1int,
{
    if !(kind_at(toks, i) is RParen) {
        lemma_value_forward(toks, i);
        match value(toks, i) {
            Parsed::Done { value: arg, next } => {
                if kind_at(toks, next) is Comma {
                    lemma_call_args_forward(toks, next + 1, acc.push(arg));
                }
            },
            Parsed::Failed { .. } => {},
        }
    }
}

pub proof fn lemma_expression_forward(toks: Seq<Token>, i: int)
    ensures
        forward(expression(toks, i), i, toks.len() as int),
{
    lemma_value_forward(toks, i);
    match value(toks, i) {
        Parsed::Done { next, .. } => {
            lemma_value_forward(toks, next + 1);
        },
        Parsed::Failed { .. } => {},
    }
}

pub proof fn lemma_member_list_forward(toks: Seq<Token>, i: int, acc: Seq<Slice>)
    ensures
        forward(member_list(toks, i, acc), i, toks.len() as int),
    decreases toks.len() - i,
{
    match kind_at(toks, i) {
        Tokens::Identifier(name) => {
            if kind_at(toks, i + 1) is Comma {
                lemma_member_list_forward(toks, i + 2, acc.push(name));
            }
        },
        _ => {},
    }
}

pub proof fn lemma_import_forward(toks: Seq<Token>, i: int)
    ensures
        forward(import_members(toks, i), i, toks.len() as int),
        forward(import_path(toks, i), i, toks.len() as int),
        forward(import_statement(toks, i), i, toks.len() as int),
{
    lemma_member_list_forward(toks, i + 1, Seq::<Slice>::empty());
    lemma_member_list_forward(toks, i + 2, Seq::<Slice>::empty());
    match import_members(toks, i + 1) {
        Parsed::Done { next, .. } => {
            assert(forward(import_members(toks, i + 1), i + 1, toks.len() as int));
        },
        Parsed::Failed { .. } => {},
    }
}

pub proof fn lemma_const_forward(toks: Seq<Token>, i: int)
    ensures
        forward(const_name(toks, i), i, toks.len() as int),
        forward(const_statement(toks, i), i, toks.len() as int),
{
    match const_name(toks, i + 1) {
        Parsed::Done { next, .. } => {
            lemma_expression_forward(toks, next);
        },
        Parsed::Failed { .. } => {},
    }
}

pub proof fn lemma_parameters_forward(
    toks: Seq<Token>,
    src: Seq<u8>,
    i: int,
    acc: Seq<(Slice, NodeType)>,
)
    ensures
        forward(parameters(toks, src, i, acc), i, toks.len() as int),
    decreases toks.len() - i,
{
    match kind_at(toks, i) {
        Tokens::Identifier(name) => {
            if kind_at(toks, i + 1) is Colon {
                match type_at(toks, src, i + 2) {
                    Parsed::Done { value: t, .. } => {
                        if kind_at(toks, i + 3) is Comma {
                            lemma_parameters_forward(toks, src, i + 4, acc.push((name, t)));
                        }
                    },
                    Parsed::Failed { .. } => {},
                }
            }
        },
        _ => {},
    }
}

pub proof fn lemma_signature_forward(toks: Seq<Token>, src: Seq<u8>, i: int)
    ensures
        forward(name_at(toks, i), i, toks.len() as int),
        forward(type_at(toks, src, i), i, toks.len() as int),
        forward(parameter_list(toks, src, i), i, toks.len() as int),
        forward(return_type(toks, src, i), i, toks.len() as int),
        forward(signature(toks, src, i), i, toks.len() as int),
{
    lemma_parameters_forward(toks, src, i + 1, Seq::<(Slice, NodeType)>::empty());
    lemma_parameters_forward(toks, src, i + 2, Seq::<(Slice, NodeType)>::empty());
    match name_at(toks, i) {
        Parsed::Done { next, .. } => {
            match parameter_list(toks, src, next) {
                Parsed::Done { next: after, .. } => {
                    assert(forward(return_type(toks, src, after), after, toks.len() as int));
                },
                Parsed::Failed { .. } => {},
            }
        },
        Parsed::Failed { .. } => {},
    }
}

pub proof fn lemma_function_forward(toks: Seq<Token>, src: Seq<u8>, i: int)
    ensures
        forward(function(toks, src, i), i, toks.len() as int),
    decreases toks.len() - i, 0int,
{
    lemma_signature_forward(toks, src, i + 1);
    if kind_at(toks, i) is Fn {
        match signature(toks, src, i + 1) {
            Parsed::Done { next, .. } => {
                if next < toks.len() {
                    lemma_block_forward(toks, src, next);
                }
            },
            Parsed::Failed { .. } => {},
        }
    }
}

pub proof fn lemma_block_forward(toks: Seq<Token>, src: Seq<u8>, i: int)
    ensures
        forward(block(toks, src, i), i, toks.len() as int),
    decreases toks.len() - i, 2int,
{
    if kind_at(toks, i) is LBrace {
        lemma_block_items_forward(toks, src, i + 1, Seq::<Tree>::empty());
    }
}

pub proof fn lemma_block_item_forward(toks: Seq<Token>, src: Seq<u8>, i: int)
    ensures
        forward(block_item(toks, src, i), i, toks.len() as int),
    decreases toks.len() - i, 3int,
{
    if kind_at(toks, i) is Fn {
        lemma_function_forward(toks, src, i);
    } else if kind_at(toks, i) is LBrace {
        lemma_block_forward(toks, src, i);
    } else {
        lemma_expression_forward(toks, i);
    }
}

pub proof fn lemma_block_items_forward(toks: Seq<Token>, src: Seq<u8>, i: int, acc: Seq<Tree>)
    ensures
        forward(block_items(toks, src, i, acc), i, toks.len() as int),
    decreases toks.len() - i, 4int,
{
    if kind_at(toks, i) is RBrace {
    } else if kind_at(toks, i) is Semicolon {
        lemma_block_items_forward(toks, src, i + 1, acc);
    } else {
        lemma_block_item_forward(toks, src, i);
        match block_item(toks, src, i) {
            Parsed::Done { value: item, next } => {
                lemma_block_items_forward(toks, src, next, acc.push(item));
            },
            Parsed::Failed { .. } => {},
        }
    }
}

/// A statement that parses ends after the index it starts at and inside
/// the token sequence; one that fails does so at or after that index.
pub proof fn lemma_statement_forward(toks: Seq<Token>, src: Seq<u8>, i: int)
    ensures
        forward(statement(toks, src, i), i, toks.len() as int),
{
    lemma_import_forward(toks, i);
    lemma_const_forward(toks, i);
    lemma_function_forward(toks, src, i);
}

proof fn lemma_next_semicolon_forward(toks: Seq<Token>, i: int)
    ensures
        next_semicolon(toks, i) matches Some(resume) ==> i < resume <= toks.len(),
    decreases toks.len() - i,
{
    if 0 <= i < toks.len() {
        lemma_next_semicolon_forward(toks, i + 1);
    }
}

proof fn lemma_block_end_forward(toks: Seq<Token>, i: int, floor: int, depth: nat)
    ensures
        block_end(toks, i, floor, depth) matches Some(resume) ==> i < resume <= toks.len()
            && floor < resume,
    decreases toks.len() - i,
{
    if 0 <= i < toks.len() {
        lemma_block_end_forward(toks, i + 1, floor, depth + 1);
        lemma_block_end_forward(toks, i + 1, floor, depth);
        lemma_block_end_forward(toks, i + 1, floor, 0);
        if depth > 0 {
            lemma_block_end_forward(toks, i + 1, floor, (depth - 1) as nat);
        }
    }
}

/// Parsing resumes after the token at which the statement failed, and
/// inside the token sequence.
pub proof fn lemma_recovery_forward(toks: Seq<Token>, start: int, at: int)
    requires
        start <= at,
    ensures
        recovery(toks, start, at) matches Some(resume) ==> at < resume <= toks.len(),
{
    lemma_next_semicolon_forward(toks, at);
    lemma_block_end_forward(toks, start, at, 0);
}

} // verus!
