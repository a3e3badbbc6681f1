//! Core of an image-to-vector conversion service: the settings model and its
//! parser, the per-pixel preprocessing pipeline, the mapping of settings onto
//! the tracing engine's configuration, the in-memory artifact registry with
//! its time-based eviction, and the batch-export planner.
//!
//! Transport, file I/O and process bootstrap live outside this crate; the
//! tracing engine and the archive encoder are called through a small set of
//! trusted wrappers documented where they stand.

pub mod models;
pub mod settings;
pub mod preprocess;
pub mod engine;
pub mod registry;
pub mod naming;
pub mod batch;
pub mod vectorizer;
