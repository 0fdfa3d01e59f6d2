//! Request handling rules of a tus resumable upload server.

pub mod common;
pub mod delete;
pub mod error;
pub mod expiration;
pub mod finish;
pub mod get;
pub mod head;
pub mod headers;
pub mod metadata;
pub mod options;
pub mod patch;
pub mod text;
pub mod upload;
pub mod url;
