//! A bash-like shell's line editing and completion logic: key bindings and
//! their configuration files, terminal buffers, cursor movement over the
//! input line, the parts of command lines that completion works on, history
//! search by prefix, and the highlighting of commands.
pub mod binds;
pub mod completers;
pub mod highlight;
pub mod history;
pub mod linefeed;
pub mod pipeline;
pub mod re;
pub mod text;
pub mod calculator;
pub mod jobc;
pub mod builtins;
pub mod dispatch;
pub mod execute;
pub mod ctime;
