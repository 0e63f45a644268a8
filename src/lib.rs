use vstd::prelude::*;

pub mod numeric;
pub mod text;
pub mod dice;
pub mod dice_expression;
pub mod creature;
pub mod dice_parser;
pub mod lexer;
pub mod parser;
pub mod interpolation;
pub mod laws;
pub mod errors;
pub mod evaluator;
pub mod parse_position;
pub mod stats;
pub mod structured_text;
pub mod tokenizer;
pub mod value;

verus! {

} // verus!
