//! Hybrid-encrypted archives: files are packed into one archive, the archive
//! is sealed under a fresh content key, and the content key is wrapped for a
//! single recipient. The result is a self-contained container.

pub mod error;
pub mod container;
pub mod keys;
pub mod cipher;
pub mod archive;
pub mod builder;
pub mod extractor;
pub mod registry;
pub mod pipeline;
