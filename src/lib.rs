//! Catalog aggregation and popularity ranking for a dotfile-repository hub.

pub mod catalog;
pub mod github;
pub mod popularity;
pub mod ranking;
pub mod registry;
pub mod text;
