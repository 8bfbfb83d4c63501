//! Ingestion of social-media posts: URL registry, payload parsing, failure
//! taxonomy, resumable stores, fetch orchestration and media download rounds.
pub mod text;
pub mod url;
pub mod error;
pub mod json;
pub mod records;
pub mod post;
pub mod parser;
pub mod views;
pub mod store;
pub mod pipeline;
pub mod download;
pub mod summary;
