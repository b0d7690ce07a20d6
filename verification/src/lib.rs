//! Capture-time sort keys for image files.
//!
//! The crate derives, for an image, a fixed-width UTC timestamp from the
//! date-time and offset fields of its embedded metadata, and orders a batch of
//! images by that key.

pub mod error;
pub mod offset;
pub mod timestamp;
pub mod priority;
pub mod metadata;
pub mod order;
pub mod collect;
pub mod stable;
