//! A vault of markdown notes: frontmatter-aware reading, line and metadata
//! search with a result cap, frontmatter formatting, and the naming rules of
//! writes and soft deletes.
pub mod text;
pub mod value;
pub mod codec;
pub mod frontmatter;
pub mod error;
pub mod pattern;
pub mod collector;
pub mod search;
pub mod metasearch;
pub mod format;
pub mod vault;
