//! Verified core of a job-listing extraction pipeline.
//!
//! The library turns the rendered content of a job-board search-results page
//! into deduplicated, persistable listing records.  Everything that computes
//! is verified here: building the canonical search URL, deriving the stable
//! per-listing identity key through ordered fallback strategies, extracting
//! typed fields from result cards while isolating per-card failures, and the
//! dedup/report stage.  The browser session and the persistent store are
//! external collaborators; callers hand their answers in as plain data
//! (`PageSnapshot`, store contents) and perform the actual I/O themselves.

pub mod ascii;
pub mod error;
pub mod models;
pub mod queries;
pub mod report;
pub mod response;
pub mod scraper;
pub mod text;
pub mod urlenc;
