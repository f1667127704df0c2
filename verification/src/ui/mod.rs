//! What the core computes for the screen.
pub mod widgets;
