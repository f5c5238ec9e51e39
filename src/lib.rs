//! Decision logic for toggling a named scratchpad window in the sway window
//! manager: reading a snapshot of the window tree, working out which
//! scratchpads are showing, and planning the commands that bring the
//! requested one into view (or hide it again).

pub mod tree;
pub mod visibility;
pub mod classify;
pub mod command;
pub mod cli;
pub mod toggle;
