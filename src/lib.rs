//! Parsing and batch application of display refresh-rate changes.
//!
//! The library holds the logic of the command-line tool: the `<index>:<rate>`
//! token grammar, the check that rejects a batch naming a display twice, and
//! the decisions of the run that applies a batch to the active displays.
//! Talking to the operating system is left to the caller.
pub mod batch;
pub mod display_args;
pub mod display_change;
pub mod maps;
pub mod set_cli;
pub mod text;

pub use text::split_at_skip_mid_char;
