//! The verified core of a documentation server for SurrealDB.
pub mod config;
pub mod doc_url;
pub mod environment;
pub mod frontmatter;
pub mod location;
pub mod page;
pub mod query;
pub mod refresh;
pub mod search;
pub mod source;
pub mod text;
