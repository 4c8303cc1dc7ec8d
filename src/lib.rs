//! Manifest-driven fetch-and-extract installation of a multi-archive
//! software distribution.

pub mod archive;
pub mod entry_path;
pub mod error;
pub mod extract;
pub mod latest;
pub mod manifest;
pub mod roots;
pub mod session;
pub mod text;
pub mod version;
