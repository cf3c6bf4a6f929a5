//! Verified core of the hoarder media organizer: the hierarchical tag model,
//! search query tokenizing, pagination rules and the pure parts of the
//! storage layer.

pub mod domain;
pub mod text;
pub mod query;
pub mod infrastructure;
pub mod application;
pub mod json;
pub mod json_text;
pub mod uuid_text;
pub mod thumbnails;
pub mod base64_text;
pub mod storage;
