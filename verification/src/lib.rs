//! The decisions behind a desktop window onto a repository: which rows a pane
//! shows and in what order, where the keyboard lands, what a key, a click or a
//! refresh does to all of that, and what every label says.
//!
//! Nothing in here draws. A pane hands out plain values, and whoever holds the
//! window turns them into pixels.

pub mod laws;
pub mod settings;
pub mod settings_window;
pub mod stats;
pub mod text;
pub mod theme_picker;
pub mod views;
