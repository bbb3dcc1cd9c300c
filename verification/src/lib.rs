//! A verified core for a chunked 2-D tilemap renderer.
//!
//! The crate covers three subsystems:
//! - the tile data model and the chunk indexer that maps a grid coordinate to
//!   a linear render-chunk id (`tile`, `grid`);
//! - the render-pipeline specializer that derives a complete pipeline
//!   description from a compact key (`pipeline`);
//! - the persistence codec that serializes a tile grid and optional auxiliary
//!   layers to a directory of byte files, and loads them back (`codec`,
//!   `saver`).
//!
//! All file and GPU work is left to the embedding application; the library
//! computes plans and byte images and proves them correct.

use vstd::prelude::*;

pub mod codec;
pub mod grid;
pub mod pipeline;
pub mod saver;
pub mod tile;

verus! {

/// Maximum number of texture layers a single tile can carry.
pub const MAX_LAYER_COUNT: usize = 4;

} // verus!
