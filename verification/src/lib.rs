//! Resolves license files for third-party dependencies: maps a declared
//! license identifier and a source-repository URL to an ordered list of
//! candidate raw-file URLs to try, in priority order.

pub mod license;
pub mod plan;
pub mod rawurl;
pub mod text;

pub use rawurl::RawFilesURL;
