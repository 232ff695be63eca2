//! Lowering of class-property syntax (fields, private names, static blocks,
//! computed keys) into constructs of an earlier dialect, over a plain-value
//! model of the syntax tree.

pub mod ast;
pub mod binding;
pub mod class;
pub mod guard;
pub mod laws;
pub mod lower;
pub mod table;
