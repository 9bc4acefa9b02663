//! Conversion of AsciiMath text into an expression tree.
//!
//! The tokenizer splits the text into tokens by ordered pattern tables; the
//! tree parser builds an [`elements::Expression`] from them.
pub mod elements;
pub mod grid_proofs;
pub mod mappings;
pub mod mathml;
pub mod tokenizer;
pub mod tokens;
pub mod tree_parser;

use crate::elements::{expression_view, ElementView, Expression};
use crate::tokenizer::{tokenize, tokenize_spec};
use crate::tree_parser::{parse_tokens_spec, TreeParser};
use vstd::prelude::*;

verus! {

/// The expression tree of a text.
pub open spec fn parse_spec(text: Seq<char>) -> Seq<ElementView> {
    parse_tokens_spec(tokenize_spec(text))
}

/// Parses a text into an expression: tokenizes it, then builds the tree.
pub fn parse(content: String) -> (r: Expression)
    ensures
        expression_view(r) == parse_spec(content@),
{
    let tokens = tokenize(content);
    let mut tree_parser = TreeParser::new(tokens);
    tree_parser.parse()
}

} // verus!
