//! A verified library for the Bullang language: its syntax tree, parser,
//! structural validator, type checker and code generators.

pub mod ast;
pub mod model;
pub mod text;
pub mod grammar;
pub mod parser;
pub mod validator;
pub mod project;
pub mod typecheck;
pub mod stdlib;
pub mod codegen;
pub mod init;
pub mod tree_build;
pub mod harness;
pub mod paths;
pub mod commands;
