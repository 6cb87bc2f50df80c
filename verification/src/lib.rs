//! Changelog generation from merged GitHub pull requests: which pull requests
//! a comparison of two branches brings in, which of them are filtered out,
//! which Jira issues their descriptions mention, and how the list is rendered
//! as Markdown or as Jira markup.

pub mod text;
pub mod pattern;
pub mod instant;
pub mod entry;
pub mod config;
pub mod format;
pub mod preference;
pub mod jira;
pub mod markdown;
pub mod filter;
pub mod source;
pub mod render;
