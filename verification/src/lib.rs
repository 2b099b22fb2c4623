//! Evaluation of the conditions of templates, such as
//! `<% a.b == 1 && !c %>`: tokens and precedence parsing, operands and the
//! comparison and boolean operators on them, lookups of dotted names in a
//! JSON context, and a stack evaluator, each with its specification, and
//! the laws that relate them.

pub mod compute;
pub mod context;
pub mod decimal;
pub mod eval;
pub mod expr;
pub mod json;
pub mod laws;
pub mod lex;
pub mod meaning;
pub mod messages;
pub mod operand;
pub mod parse;
pub mod shape;
pub mod template;
pub mod text;
