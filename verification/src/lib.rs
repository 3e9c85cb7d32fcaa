//! Compiles a tree of command descriptions into a POSIX-shell program with
//! argument parsing, help text and tab completion.

pub mod cli;
pub mod command;
pub mod completion;
pub mod document;
pub mod help;
pub mod names;
pub mod parser;
pub mod shape;
pub mod shell_generator;
pub mod text;
