//! Decoder for the IDX binary dataset format: big-endian, header-prefixed
//! blobs holding fixed-size image records and single-byte labels.
//!
//! The decoder turns a raw byte buffer into an in-memory dataset, validating
//! magic numbers, dimension-derived record sizes, and image/label count
//! consistency. Every operation is all-or-nothing: malformed input yields an
//! error and no partial dataset.

pub mod dataset;
pub mod laws;
pub mod tensor;
pub mod wire;
