//! Interactive side-by-side diff review engine.
//!
//! The crate holds the core of a terminal diff review tool: per-line
//! change highlights parsed from a unified patch, a pure layout engine for
//! pane geometry, a navigation state machine (file selection, vertical and
//! per-pane horizontal scroll), in-diff search with a cyclic match cursor,
//! hunk-boundary navigation, and content-addressed review tracking.
//!
//! Terminal plumbing, subprocess calls and file I/O live outside the crate;
//! they hand plain values (bytes, strings, sizes) to the functions here and
//! take plain values back.

pub mod app;
pub mod cli;
pub mod diff;
pub mod git;
pub mod model;
pub mod render;
pub mod review;
pub mod syntax;
pub mod text;
