//! The checker proper: expressions, statements, annotations.
pub mod check;
pub mod infer_expr;
pub mod narrow;
pub mod rules;
pub mod types;
