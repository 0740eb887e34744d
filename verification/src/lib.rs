//! Verified transformation of heterogeneous CSV part catalogs into
//! line-oriented document-store (NDJSON) and search-engine bulk-index output.
//!
//! The library owns all of the decision logic: locale-tolerant numeric
//! coercion, header-driven column resolution, per-row projection with
//! documented defaults, the CSV grammar itself, JSON emission, and the
//! per-file pipeline with its result accounting. File and terminal I/O,
//! the clock, and the worker pool live outside the library.

pub mod bytes;
pub mod coerce;
pub mod resolve;
pub mod csvrows;
pub mod json;
pub mod project;
pub mod emit;
pub mod pipeline;
pub mod report;
pub mod files;
pub mod timefmt;
