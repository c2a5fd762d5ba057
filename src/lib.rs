//! Relation resolution for SELECT analysis: flattening a FROM clause into a
//! postfix relation sequence, resolving each relation to a qualified schema and
//! composing the joined schema.

pub mod error;
pub mod schema;
pub mod ast;
pub mod rpn;
pub mod resolver;
pub mod state;
pub mod laws;
