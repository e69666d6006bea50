//! Decides which forum listing pages show a post inside a recency window.
//!
//! The crate holds the pure part of a page scanner: the substring search over
//! page text, the marker vocabulary and the day-bucket classifier, the rules
//! that turn a fetch outcome into a verdict and an advisory notice, and the
//! slot board that restores input order when fetches finish in any order.
//! Network retrieval and task scheduling are left to the program around it.

pub mod batch;
pub mod board;
pub mod bytes;
pub mod classifier;
pub mod encoding;
pub mod fetch;
pub mod markers;
pub mod report;
pub mod scan;
pub mod targets;
pub mod text;
