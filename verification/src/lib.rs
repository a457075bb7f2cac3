//! The verified core of a Grok media gateway.

pub mod assets;
pub mod base_service;
pub mod cache;
pub mod curl;
pub mod download;
pub mod encoding;
pub mod error;
pub mod files;
pub mod headers;
pub mod ident;
pub mod json;
pub mod lock;
pub mod media_storage;
pub mod mime;
pub mod model;
pub mod number;
pub mod path;
pub mod query;
pub mod sort;
pub mod storage;
pub mod text;
pub mod toml_text;
pub mod videos;
