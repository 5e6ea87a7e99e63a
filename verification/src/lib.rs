//! Verified CPU-side generators for GPU rendering scenes.
//!
//! Two generators are provided, both pure computations over in-memory
//! buffers:
//!
//! - a mipmap pyramid builder that repeatedly halves an RGBA8 base image
//!   with an edge-safe bilinear downsample until it reaches a 1x1 level
//!   (see [`mip`]);
//! - ring (annulus) geometry builders that triangulate the band between
//!   an inner and an outer radius, either with duplicated per-triangle
//!   vertices or with shared vertices plus an index list (see [`ring`]).
//!
//! The [`blended`] module holds a fixed 16 x 16 sample image and its
//! pyramid, the asset the pyramid builder is exercised on.
//!
//! An external graphics-resource layer is expected to upload the finished
//! levels and vertex/index data to textures and buffers; nothing in this
//! crate touches a graphics API.

use vstd::prelude::*;

pub mod blended;
pub mod mip;
pub mod ring;

verus! {

/// Error taxonomy of the generators: the only fatal condition is a
/// degenerate input, reported synchronously with no partial output.
#[derive(Clone, Copy, Debug, PartialEq, Eq, Structural)]
pub enum GenError {
    /// A zero-sized base image, zero subdivisions, or a negative radius.
    InvalidParameter,
}

} // verus!
