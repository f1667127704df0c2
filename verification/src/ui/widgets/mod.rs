//! The parts of the screen that the core lays out.
pub mod tui_menu;
pub mod tui_topbar;
