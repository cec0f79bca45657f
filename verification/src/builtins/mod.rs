//! Builtin commands of the shell: the parts of their work that decide what
//! to do and what to print.
pub mod alias;
pub mod cd;
pub mod check;
pub mod exit;
pub mod export;
pub mod fg;
pub mod history;
pub mod read;
pub mod ulimit;
pub mod unalias;
pub mod utils;
pub mod vox;
