//! The command execution engine of a POSIX-style shell: scopes of variables and
//! functions, the table of jobs, signal bookkeeping, the wait loop, the
//! expansion of simple commands and the decisions of the executor.

pub mod args;
pub mod ast;
pub mod builtins;
pub mod completion;
pub mod context;
pub mod eval;
pub mod expand;
pub mod jobs;
pub mod lexer;
pub mod parser;
pub mod shell;
pub mod sorted;
pub mod status;
pub mod text;
pub mod trap;
pub mod wait;
