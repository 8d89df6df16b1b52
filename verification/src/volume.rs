//! The voxel volume: an octree root together with the physical edge
//! length of the cube it fills.
//!
//! The volume is a cube centered at the origin. Voxel coordinates at
//! depth `d` range over `[0, 2^d)` per axis, with `0` mapping to the
//! most-negative corner. The edge length is the power of two
//! `2^depth_to_unit`, so a voxel at depth `depth_to_unit` has unit size.

use vstd::prelude::*;
use vstd::arithmetic::power2::pow2;

use crate::codec::{lemma_path_of_child, path_of, pow2_u128, xyz_to_path};
use crate::octant::{octant_spec, SubVlox};
use crate::octree::Vlox;
use crate::{MaterialId, VloxError, MAX_DEPTH};

verus! {

/// Do `(x, y, z)` address a voxel at `depth`? The depth must not exceed
/// [`MAX_DEPTH`] and each coordinate must lie in `[0, 2^depth)`.
pub open spec fn in_range(x: nat, y: nat, z: nat, depth: nat) -> bool {
    &&& depth <= MAX_DEPTH
    &&& x < pow2(depth)
    &&& y < pow2(depth)
    &&& z < pow2(depth)
}

/// The whole effect of a successful write of `value` at
/// `(x, y, z, depth)`: a lookup whose path extends the written path now
/// resolves to `value`, and every other lookup is unchanged.
pub open spec fn set_effect(
    pre: VloxData,
    post: VloxData,
    x: nat,
    y: nat,
    z: nat,
    depth: nat,
    value: MaterialId,
) -> bool {
    forall|q: Seq<SubVlox>|
        post.resolve(q) == if path_of(x, y, z, depth).is_prefix_of(q) {
            value
        } else {
            pre.resolve(q)
        }
}

/// A sparse voxel volume.
#[derive(Debug)]
pub struct VloxData {
    depth_to_unit: u8,
    root: Vlox,
}

impl VloxData {
    /// Every volume's octree is structurally sound and its edge exponent
    /// stays within the addressable range.
    #[verifier::type_invariant]
    spec fn inv(self) -> bool {
        &&& self.root.wf()
        &&& self.depth_to_unit <= MAX_DEPTH
    }

    /// The base-two logarithm of the edge length.
    pub closed spec fn edge_log2(self) -> nat {
        self.depth_to_unit as nat
    }

    /// The physical edge length of the volume's cube.
    pub open spec fn edge_len(self) -> nat {
        pow2(self.edge_log2())
    }

    /// The material id that a lookup along `path` resolves to.
    pub closed spec fn resolve(self, path: Seq<SubVlox>) -> MaterialId {
        self.root.stored_at(path)
    }

    /// The material id of the voxel `(x, y, z)` at `depth`.
    pub open spec fn value_at(self, x: nat, y: nat, z: nat, depth: nat) -> MaterialId {
        self.resolve(path_of(x, y, z, depth))
    }

    /// What [`VloxData::get`] returns: the resolved id when the
    /// coordinate addresses a voxel, and the reason it does not otherwise.
    pub open spec fn lookup(self, x: nat, y: nat, z: nat, depth: nat) -> Result<
        MaterialId,
        VloxError,
    > {
        if depth > MAX_DEPTH {
            Err(VloxError::DepthOutOfRange)
        } else if !(x < pow2(depth) && y < pow2(depth) && z < pow2(depth)) {
            Err(VloxError::CoordinateOutOfRange)
        } else {
            Ok(self.value_at(x, y, z, depth))
        }
    }

    /// An empty volume: every voxel at every depth is void (id `0`), and
    /// the cube's edge length is `2^depth_to_unit`.
    pub fn new(depth_to_unit: u8) -> (data: VloxData)
        requires
            depth_to_unit <= MAX_DEPTH,
        ensures
            data.edge_log2() == depth_to_unit,
            forall|q: Seq<SubVlox>| data.resolve(q) == 0,
    {
        VloxData { depth_to_unit, root: Vlox::new(0) }
    }

    /// The physical edge length.
    pub fn size(&self) -> (r: u128)
        ensures
            r == self.edge_len(),
    {
        proof {
            use_type_invariant(self);
        }
        pow2_u128(self.depth_to_unit)
    }

    /// How many voxels `depth` puts along each axis: `2^depth`.
    pub fn num_vlox(&self, depth: u8) -> (r: u128)
        requires
            depth <= MAX_DEPTH,
        ensures
            r == pow2(depth as nat),
    {
        pow2_u128(depth)
    }

    /// Reads the material id of the voxel `(x, y, z)` at `depth`.
    pub fn get(&self, x: u128, y: u128, z: u128, depth: u8) -> (r: Result<MaterialId, VloxError>)
        ensures
            r == self.lookup(x as nat, y as nat, z as nat, depth as nat),
    {
        proof {
            use_type_invariant(self);
        }
        if depth > MAX_DEPTH {
            return Err(VloxError::DepthOutOfRange);
        }
        let blocks = pow2_u128(depth);
        if x >= blocks || y >= blocks || z >= blocks {
            return Err(VloxError::CoordinateOutOfRange);
        }
        let path = xyz_to_path(x, y, z, depth);
        Ok(self.root.get(&path))
    }

    /// Writes `value` as the material id of the voxel `(x, y, z)` at
    /// `depth`. On success the one written region changes and nothing
    /// else; on failure the volume is untouched.
    pub fn set(&mut self, x: u128, y: u128, z: u128, depth: u8, value: MaterialId) -> (r: Result<
        (),
        VloxError,
    >)
        ensures
            final(self).edge_log2() == old(self).edge_log2(),
            r == if depth > MAX_DEPTH {
                Err::<(), VloxError>(VloxError::DepthOutOfRange)
            } else if !(x < pow2(depth as nat) && y < pow2(depth as nat) && z < pow2(
                depth as nat,
            )) {
                Err::<(), VloxError>(VloxError::CoordinateOutOfRange)
            } else {
                Ok::<(), VloxError>(())
            },
            r is Ok ==> set_effect(
                *old(self),
                *final(self),
                x as nat,
                y as nat,
                z as nat,
                depth as nat,
                value,
            ),
            r is Err ==> *final(self) == *old(self),
    {
        proof {
            use_type_invariant(&*self);
        }
        if depth > MAX_DEPTH {
            return Err(VloxError::DepthOutOfRange);
        }
        let blocks = pow2_u128(depth);
        if x >= blocks || y >= blocks || z >= blocks {
            return Err(VloxError::CoordinateOutOfRange);
        }
        let path = xyz_to_path(x, y, z, depth);
        let mut root = Vlox::new(0);
        std::mem::swap(&mut root, &mut self.root);
        root.set(&path, value);
        self.root = root;
        Ok(())
    }
}

impl Default for VloxData {
    /// An empty unit cube: edge length `2^0 = 1`.
    fn default() -> (data: VloxData)
        ensures
            data.edge_log2() == 0,
            forall|q: Seq<SubVlox>| data.resolve(q) == 0,
    {
        VloxData::new(0)
    }
}

/// Round trip: after a successful write, a read at the same coordinate
/// and depth resolves to the written value.
pub proof fn lemma_set_get_round_trip(
    pre: VloxData,
    post: VloxData,
    x: nat,
    y: nat,
    z: nat,
    depth: nat,
    value: MaterialId,
)
    requires
        in_range(x, y, z, depth),
        set_effect(pre, post, x, y, z, depth, value),
    ensures
        post.value_at(x, y, z, depth) == value,
{
    let p = path_of(x, y, z, depth);
    assert(p =~= p.subrange(0, p.len() as int));
    assert(p.is_prefix_of(p));
}

/// Inheritance: after a successful write at depth `d`, each of the eight
/// children of the written voxel reads the written value at depth `d + 1`
/// (until some deeper write touches it).
pub proof fn lemma_set_child_inheritance(
    pre: VloxData,
    post: VloxData,
    x: nat,
    y: nat,
    z: nat,
    depth: nat,
    value: MaterialId,
    dx: nat,
    dy: nat,
    dz: nat,
)
    requires
        depth < MAX_DEPTH,
        x < pow2(depth),
        y < pow2(depth),
        z < pow2(depth),
        dx < 2,
        dy < 2,
        dz < 2,
        set_effect(pre, post, x, y, z, depth, value),
    ensures
        post.value_at(2 * x + dx, 2 * y + dy, 2 * z + dz, depth + 1) == value,
{
    lemma_path_of_child(x, y, z, depth, dx, dy, dz);
    let p = path_of(x, y, z, depth);
    let c = p.push(octant_spec(dx == 1, dy == 1, dz == 1));
    assert(p =~= c.subrange(0, p.len() as int));
    assert(p.is_prefix_of(c));
}

} // verus!
