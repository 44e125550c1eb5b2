//! A miniature shell: a parser that turns a pipe-delimited command line into a
//! tree of commands, an interpreter for that tree, and a byte connector that
//! joins two concurrently running stages. Beside it: a stack calculator, a
//! bracket checker, and small functions on numbers and strings.

pub mod brackets;
pub mod calculator;
pub mod command_output;
pub mod commands;
pub mod error;
pub mod exercises;
pub mod laws;
pub mod point;
pub mod shell_command;
pub mod stream;
pub mod text;
