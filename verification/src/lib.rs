//! Lowers type declarations of a structurally-typed source language into a
//! portable intermediate type representation and resolves named type
//! references across a graph of source modules.

pub mod table;
pub mod ir;
pub mod source_ast;
pub mod lower;
pub mod options;
pub mod visitor;
pub mod resolver;
pub mod builder;
pub mod hashable_set;
pub mod string_utils;
