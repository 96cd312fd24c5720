//! Podcast episode downloader: filename derivation, metadata records, the
//! scheduling of download tasks and the per-task state machine.
pub mod text;
pub mod sanitize;
pub mod filename;
pub mod paths;
pub mod episode;
pub mod schedule;
pub mod task;
pub mod pool;
pub mod progress;
