//! The commands that act on the navigation state.
pub mod execute;
pub mod reload_dir;
pub mod show_hidden;
pub mod sort;
