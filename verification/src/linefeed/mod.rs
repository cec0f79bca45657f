//! Line editing: key bindings, configuration files, terminal buffers and
//! cursor movement over the input line.
pub mod chars;
pub mod command;
pub mod highlighting;
pub mod inputrc;
pub mod memory;
pub mod path;
pub mod reader;
pub mod table;
pub mod util;
pub mod variables;
