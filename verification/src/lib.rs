//! Build-time configuration resolution for a native shared library.
//!
//! The crate locates a platform-specific shared library under one of several
//! package-manager layouts, decodes the minimum operating-system version the
//! library was built for from its binary container, and derives the build
//! facts (deployment target and a numeric threshold) that a build script
//! publishes for the rest of the build.

pub mod arch;
pub mod environment;
pub mod errors;
pub mod facts;
pub mod macho;
pub mod resolver;
pub mod version;
