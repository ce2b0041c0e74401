//! A static type-inference and type-checking engine for a small, dynamically
//! typed configuration language, together with a runtime type-annotation
//! compiler.

pub mod ast;
pub mod cmp;
pub mod ctx;
pub mod display;
pub mod intersect;
pub mod matcher;
pub mod oracle;
pub mod strings;
pub mod ty;
pub mod type_expr;
pub mod union;
pub mod values;
