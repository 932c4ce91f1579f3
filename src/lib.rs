//! Code snippet cards: the export job pipeline and the stores around it.
//!
//! - `jobs`: admits export jobs under a bound on jobs in progress, tracks each job
//!   through Queued, Processing, Completed or Failed, and Expired, keeps the artifacts
//!   and reclaims them when they lapse.
//! - `export` and `svg`: validate export options, post-process raster images and lay
//!   out vector documents from highlighted lines.
//! - `retry`: how often a failing step is tried and how long to wait in between.
//! - `cache`, `rate_limit`, `session`: time-bounded stores that agree on one expiry
//!   rule, checked lazily on reads and by sweeps.
//! - `errors`: the failures and the responses shown for them.
//! - `storage`, `config`, `snippet`, `upload`: storage paths, settings, input sources
//!   and the check on uploaded images.
//!
//! Times are milliseconds given by the caller; nothing here reads a clock.

pub mod cache;
pub mod config;
pub mod errors;
pub mod export;
pub mod ids;
pub mod jobs;
pub mod keyed;
pub mod rate_limit;
pub mod retry;
pub mod session;
pub mod snippet;
pub mod storage;
pub mod svg;
pub mod text;
pub mod upload;
