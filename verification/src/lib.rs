//! Frame-pair comparison pipeline for scoring two video clips against each other.
//!
//! The library holds the parts of the pipeline that can be reasoned about:
//! stream descriptors, planar frames, the conversion of a planar frame into an
//! interleaved RGB raster, the reading of a scoring tool's textual output, and
//! the lockstep aggregation of per-frame results.

pub mod aggregate;
pub mod convert;
pub mod error;
pub mod frame;
pub mod metric;
pub mod output;
pub mod stream;
