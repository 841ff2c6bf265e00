//! The token streams that generated source text is handed on as.

use proc_macro2::{LexError, TokenStream};
use vstd::prelude::*;

verus! {

/// `proc_macro2::TokenStream`, carried through as it comes from the lexer.
/// Nothing is known of what a value of it holds.
#[verifier::external_type_specification]
#[verifier::external_body]
pub struct ExTokenStream(proc_macro2::TokenStream);

/// `proc_macro2::LexError`, the lexer's way of saying that a text is not
/// made of tokens. Nothing is known of what a value of it holds.
#[verifier::external_type_specification]
#[verifier::external_body]
pub struct ExLexError(proc_macro2::LexError);

/// Lexes `text` into tokens with `proc_macro2::TokenStream::from_str`, reached
/// through `str::parse`. The lexer answers with a token stream or with an
/// error, and does not panic. Which of the two it is, and what the stream
/// holds, is not stated: inside a procedural macro the compiler's lexer does
/// the work, elsewhere the crate's own, so the answer is no function of the
/// text alone.
#[verifier::external_body]
pub(crate) fn lex(text: &str) -> (outcome: Result<TokenStream, LexError>) {
    text.parse::<TokenStream>()
}

} // verus!
