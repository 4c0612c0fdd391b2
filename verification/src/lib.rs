//! An embeddable query/expression language: a textual grammar compiled to an
//! abstract syntax tree, evaluated by a tree-walking interpreter against a
//! table of named built-in operations ("resources") and a set of externally
//! supplied named values.
//!
//! The AST lives in `askcode`, the runtime values in `value`, the parser in
//! `reduce` with its entry point in `parse`, and the evaluator in `run` with
//! the built-in operations in `resource` and `resources`. Both the parser and
//! the evaluator are specified by spec-level mirrors and proved to return
//! exactly what the mirrors say.

pub mod askcode;
pub mod floatops;
pub mod numeric;
pub mod parse;
pub mod reduce;
pub mod resource;
pub mod resources;
pub mod run;
pub mod strutil;
pub mod typed;
pub mod types;
pub mod typing;
pub mod value;
