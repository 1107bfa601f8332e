//! Verified core of a diff-review pipeline.
//!
//! The library splits a multi-file diff into per-file segments, extracts the
//! file path named by each segment's header, decides for each segment whether
//! an analysis request is worth issuing (a size gate), absorbs per-file
//! analysis failures into empty reviews, merges the per-file results into a
//! map keyed by path, and joins the per-file reviews with the outcomes of the
//! two aggregation requests (title and summary) into a final report.
//!
//! Everything that talks to the outside world (reading the diff, the remote
//! analysis service, terminal output) lives outside this crate; the library
//! takes the outside world's answers as plain values.

pub mod aggregate;
pub mod header;
pub mod pipeline;
pub mod review;
pub mod review_map;
pub mod segment;
pub mod text;
