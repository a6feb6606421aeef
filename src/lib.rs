//! Core of a small interactive command interpreter: tokenizing input lines,
//! extracting redirections, building pipelines, resolving commands and
//! deciding, step by step, how their stages are wired and run.

pub mod utils;
pub mod parser;
pub mod redirection;
pub mod shell;
pub mod command_input;
pub mod history;
pub mod builtin;
pub mod execute;
pub mod completion_helper;
pub mod bit_flags;
