//! Core logic of a small release-update tool: fetching and parsing release
//! manifests and feed catalogs, selecting a platform asset, validating a
//! download cache, and locating an executable in an extracted tree.
//!
//! Network, filesystem and GUI glue live outside this crate's verified
//! library; every function here states its behaviour in a contract.

pub mod cache;
pub mod defines;
pub mod feeds;
pub mod fstree;
pub mod http;
pub mod json;
pub mod pipeline;
pub mod release;
pub mod text;
