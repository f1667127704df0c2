//! The navigation core of a terminal file manager: a per-tab directory cache
//! with soft invalidation, the sort and filter state that governs it, and the
//! chord keymap with its resolution state machine.

pub mod path;
pub mod entry;
pub mod sort;
pub mod listing;
pub mod history;
pub mod tab;
pub mod context;
pub mod commands;
pub mod config;
pub mod keymap;
pub mod event;
pub mod ui;
