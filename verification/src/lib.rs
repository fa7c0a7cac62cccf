//! The publish and retrieval core of a source-package registry.

pub mod catalog;
pub mod checksum;
pub mod error;
pub mod laws;
pub mod package;
pub mod publish;
pub mod query;
pub mod rank;
pub mod text;
pub mod timestamp;
pub mod upload;
pub mod version;
