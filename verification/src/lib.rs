//! The decision logic of a small interactive command shell.
//!
//! The shell reads a line, takes its first word as a command and the rest
//! as one parameter text, and either carries the command out itself
//! (`exit`, `echo`, `type`, `pwd`, `cd`) or looks for a program of that
//! name along the search path and has it run. The status of each command
//! is remembered for the next.
//!
//! Nothing here reads, writes or runs anything. The shell is a state
//! machine: [`shell::Shell`] says what it waits for, the host does that
//! and reports back, and the shell answers with the text to write. Every
//! function states what it returns over a model of text as sequences of
//! characters.
//!
//! - [`text`]: white space and trimming.
//! - [`tokenizer`]: the first word of a line and the rest.
//! - [`number`]: decimal integers as text.
//! - [`protocol`]: what passes between the shell and its host.
//! - [`builtins`]: `exit`, `echo`, `pwd` and `cd`.
//! - [`lookup`]: the search path, and `type`.
//! - [`runner`]: the status of a program that has ended.
//! - [`shell`]: the shell itself.
//! - [`world`]: what a whole command comes to, step by step and outright.

pub mod builtins;
pub mod lookup;
pub mod number;
pub mod protocol;
pub mod runner;
pub mod shell;
pub mod text;
pub mod tokenizer;
pub mod world;
