//! A sparse hierarchical voxel volume with surface-mesh extraction.
//!
//! The volume is an octree-backed store of per-voxel material ids that
//! supports sparse writes at arbitrary resolution, together with a
//! face-culling mesh generator that turns the occupied voxels at a chosen
//! sampling depth into a triangle mesh in grid coordinates.

use vstd::prelude::*;

pub mod codec;
pub mod material;
pub mod mesh;
pub mod octant;
pub mod octree;
pub mod volume;

verus! {

/// A small unsigned integer keying a material in the registry. The value
/// `0` is the conventional id of empty space, though occupancy is decided
/// by material resolution, not by the raw id.
pub type MaterialId = u16;

/// Greatest depth a coordinate triple may address.
///
/// Coordinates at depth `d` range over `[0, 2^d)` per axis and are carried
/// in `u128`, so anything near 128 levels would exhaust the representation;
/// this bound leaves headroom below it.
pub const MAX_DEPTH: u8 = 120;

/// How an operation on a volume or a material registry can fail.
#[derive(Clone, Copy, Debug, PartialEq, Eq, Structural)]
pub enum VloxError {
    /// The requested depth exceeds [`MAX_DEPTH`].
    DepthOutOfRange,
    /// A coordinate lies outside `[0, 2^depth)` for the requested depth.
    CoordinateOutOfRange,
    /// A material id is absent from the registry, or a solid material's
    /// palette has no entry at the resolved index.
    UnknownMaterial,
}

} // verus!
