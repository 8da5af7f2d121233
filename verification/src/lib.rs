//! Constraint-generation core of a compiler that targets arithmetic circuits
//! over the scalar field of BN254: field elements with bit-exact semantics,
//! gates and witnesses, the constraint-system builder and gadget lowering.

pub mod ast;
pub mod circuit;
pub mod errors;
pub mod evaluator;
pub mod field;
pub mod field_laws;
pub mod field_order;
pub mod gadget;
pub mod hir;
pub mod lexer;
pub mod radix;
pub mod text;
pub mod tier;
