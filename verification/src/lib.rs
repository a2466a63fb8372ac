//! Lexical front end for a small dynamically-typed scripting language:
//! a single-pass scanner that turns source text into a sequence of
//! classified tokens, together with the token model, an expression-tree
//! model with a canonical parenthesized printer, and diagnostic
//! formatting for the lexical errors the scanner recovers from.

pub mod error;
pub mod expression;
pub mod laws;
pub mod scanner;

use vstd::prelude::*;

verus! {

/// Relies on `String::push`, which appends the given character to the
/// end of the string.
pub assume_specification[ std::string::String::push ](s: &mut std::string::String, ch: char)
    ensures
        final(s)@ == old(s)@ + seq![ch],
;

} // verus!
