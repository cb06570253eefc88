//! A small Lisp: values built from shared pair cells, lexically scoped
//! environments and an evaluator, all living in one arena.

pub mod env;
pub mod equality;
pub mod error;
pub mod eval;
pub mod fuel;
pub mod growth;
pub mod heap;
pub mod laws;
pub mod list;
pub mod number;
pub mod primitive;
pub mod printer;
pub mod reader;
pub mod semantics;
pub mod text;
pub mod value;
