//! A lexer for a small schema-definition language: it turns source text into
//! classified tokens (keywords, identifiers, integer literals, punctuation).
use vstd::prelude::*;

pub mod lexer;
pub mod parser;
pub mod token;

verus! {

} // verus!
