//! Document model for rendered HTTP API documentation: anchor slugs,
//! relative links between output files, content rendering and the table of
//! contents that cross-references routes.
pub mod slug;
pub mod paths;
pub mod error;
pub mod model;
