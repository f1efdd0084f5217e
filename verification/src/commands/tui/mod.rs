//! `shoka tui`: the dashboard.
pub mod app;
pub mod keys;
pub mod picker;
pub mod points;
pub mod popups;
pub mod rank;
pub mod rows;
pub mod screen;
