//! Tolerant reading of JSON configuration text.
//!
//! The normalizer turns JSON with comments and trailing separators into strict
//! JSON in two character-level passes; the parse entry point tries the strict
//! grammar first and normalizes only when that fails. The writer's phase
//! machine decides the steps of replacing a file through a synced temporary
//! file, so that the target is never seen half written.
pub mod chars;
pub mod comments;
pub mod commas;
pub mod json;
pub mod paths;
pub mod init;
pub mod writer;
