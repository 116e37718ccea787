//! The boundary to the lexer and the parser.
//!
//! Everything in this file is taken on trust: the types are opaque to the
//! verifier, and the functions are calls whose bodies it does not read. What
//! a text lexes to and what tokens parse to is for the lexer and the parser
//! to say, so nothing here says it. The parser's answers are given names, by
//! which the verified code in the other modules says which answer it hands
//! on; the lexer's answer is only tied to the text it was given.
//!
//! The display texts of token streams and of the two refusals are read with
//! `ToString::to_string`, of which the verifier's standard library says no
//! more than that the text is the value's display.

use proc_macro2::{LexError, TokenStream};
use std::str::FromStr;
use syn::{ExprClosure, ItemFn};
use vstd::prelude::*;

verus! {

/// `proc_macro2::TokenStream`, a sequence of token trees, carried through as
/// an opaque value.
#[verifier::external_type_specification]
#[verifier::external_body]
pub struct ExTokenStream(proc_macro2::TokenStream);

/// `proc_macro2::LexError`, the lexer's refusal. Read only through its
/// `Display` text.
#[verifier::external_type_specification]
#[verifier::external_body]
pub struct ExLexError(proc_macro2::LexError);

/// `syn::ItemFn`, a free-standing function item, carried through as an
/// opaque value.
#[verifier::external_type_specification]
#[verifier::external_body]
pub struct ExItemFn(syn::ItemFn);

/// `syn::ExprClosure`, a closure expression, carried through as an opaque
/// value.
#[verifier::external_type_specification]
#[verifier::external_body]
pub struct ExExprClosure(syn::ExprClosure);

/// `syn::Error`, the parser's refusal. Read only through its `Display` text.
#[verifier::external_type_specification]
#[verifier::external_body]
pub struct ExSynError(syn::Error);

/// Holds of a text and a verdict where the verdict is one that
/// `<proc_macro2::TokenStream as FromStr>::from_str` gave on that text.
/// Which verdicts those are is not said, and a text may have more than one.
pub uninterp spec fn lexes_to(text: Seq<char>, verdict: Result<TokenStream, LexError>) -> bool;

/// What `syn::parse2::<syn::ItemFn>` makes of a token stream.
pub uninterp spec fn item_fn_of(tokens: TokenStream) -> Result<ItemFn, syn::Error>;

/// What `syn::parse2::<syn::ExprClosure>` makes of a token stream.
pub uninterp spec fn expr_closure_of(tokens: TokenStream) -> Result<ExprClosure, syn::Error>;

/// The length of `block.stmts` of a function item.
pub uninterp spec fn statements_in(item: ItemFn) -> usize;

/// Calls `<proc_macro2::TokenStream as FromStr>::from_str`, which breaks a
/// text into tokens or refuses it.
///
/// Of the result only this is said: it is a verdict of the lexer on `text`.
/// It gets no name, because inside a procedural macro the compiler's lexer
/// has a say and outside of one the crate's own lexer decides alone, so the
/// same text need not fare the same everywhere. The call returns for every
/// text. The crate's own lexer (proc-macro2 1.0.107) is a loop over the input
/// that answers what it cannot read with an error; the compiler's lexer is
/// shown only text that this one has accepted, and a panic of it is caught
/// and reported as an error too.
#[verifier::external_body]
pub(crate) fn lex(text: &str) -> (verdict: Result<TokenStream, LexError>)
    ensures
        lexes_to(text@, verdict),
{
    TokenStream::from_str(text)
}

/// Calls `syn::parse2::<syn::ItemFn>`, which reads a whole token stream as
/// one function item or refuses it.
///
/// The result is the parser's, under its name: the parser reads nothing but
/// the tokens. It descends into nested syntax by recursion, so like any such
/// parser it needs stack in proportion to the nesting of what it reads.
#[verifier::external_body]
pub(crate) fn parse_item_fn(tokens: TokenStream) -> (item: Result<ItemFn, syn::Error>)
    ensures
        item == item_fn_of(tokens),
{
    syn::parse2::<ItemFn>(tokens)
}

/// Calls `syn::parse2::<syn::ExprClosure>`, which reads a whole token stream
/// as one closure expression or refuses it.
///
/// The result is the parser's, under its name. As for function items, the
/// parser's stack use grows with the nesting of the tokens.
#[verifier::external_body]
pub(crate) fn parse_closure(tokens: TokenStream) -> (closure: Result<ExprClosure, syn::Error>)
    ensures
        closure == expr_closure_of(tokens),
{
    syn::parse2::<ExprClosure>(tokens)
}

/// Reads `block.stmts.len()` off a function item: the number of statements
/// between its braces, under its name.
#[verifier::external_body]
pub(crate) fn statement_count(item: &ItemFn) -> (count: usize)
    ensures
        count == statements_in(*item),
{
    item.block.stmts.len()
}

} // verus!
