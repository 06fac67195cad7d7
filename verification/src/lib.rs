//! Synchronises a local directory against a manifest of remote files.
//!
//! The library holds the decisions of a synchronisation run: which descriptors
//! are downloadable, when a local file is current, which worker may start,
//! how a failure cancels the rest, and what the run returns. The caller
//! performs the network and file operations that those decisions ask for.

pub mod digest;
pub mod downloader;
pub mod error;
pub mod fetch;
pub mod gate;
pub mod laws;
pub mod manifest;
pub mod reporter;
pub mod resources;
pub mod sync;

pub use downloader::KDownloader;
pub use error::Error;
pub use reporter::{Reporter, Status};
pub use resources::{FileResource, ResourceInfo};
