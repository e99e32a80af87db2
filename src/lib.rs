//! Renaming of packages across a workspace: the manifest edits, the rewrite
//! of import statements in source text, and the decisions of the rename run.
mod error;
pub mod driver;
mod pattern;
pub mod manifest;
pub mod text;

pub use error::RenameError;
pub use text::{dash_to_underscore, update_use_statements};
