//! Configuration values that the application is started with.
pub mod theme;
