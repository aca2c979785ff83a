//! What the operations are for: what holds of a call's arguments and its result, and
//! how two calls relate.
pub mod branches;
pub mod commits;
pub mod diff;
pub mod drawing;
pub mod files;
pub mod list;
pub mod markdown;
pub mod panels;
pub mod panes;
pub mod rows;
pub mod settings;
pub mod settings_window;
pub mod text_rows;
pub mod texts;
pub mod theme_picker;
