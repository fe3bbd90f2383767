/// The syntax tree: atoms with sign kept apart from magnitude, expressions,
/// statements, blocks and programs.
pub mod ast;
/// Building the syntax tree from the surface parse tree.
pub mod builder;
/// Deep copies of types, declarations and expressions.
pub mod copying;
/// The constant-folding pass.
pub mod folding;
/// Laws of the folding pass.
pub mod laws;
/// Operators and their precedence.
pub mod operator;
/// Text of types, expressions, statements and programs.
pub mod render;
/// Character-level helpers: comparing text and reading decimal digits.
pub mod text;
/// The type lattice.
pub mod types;
