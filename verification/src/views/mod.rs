//! The panes.

pub mod branches;
pub mod commits;
pub mod diff;
pub mod draw;
pub mod files;
pub mod history;
pub mod inspector;
pub mod list;
pub mod markdown;
pub mod rows;
pub mod sidebar;
pub mod source;
pub mod text_rows;
