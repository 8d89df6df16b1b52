//! The coordinate codec: an absolute voxel coordinate at a given depth is
//! decomposed into an ordered octant path, root octant first.
//!
//! At each level the coordinate triple is compared against the half-extent
//! of the current octant; an axis at or above the half has its half-extent
//! subtracted before the next level. This is the standard binary-radix
//! octree address decomposition.

use vstd::prelude::*;
use vstd::arithmetic::power2::{
    lemma2_to64, lemma2_to64_rest, lemma_pow2_adds, lemma_pow2_pos, lemma_pow2_strictly_increases,
    lemma_pow2_unfold, pow2,
};

use crate::octant::{octant_for, octant_spec, SubVlox};

verus! {

/// The octant path of the voxel `(x, y, z)` at `depth` levels below the
/// root, most-significant (root) octant first.
pub open spec fn path_of(x: nat, y: nat, z: nat, depth: nat) -> Seq<SubVlox>
    decreases depth,
{
    if depth == 0 {
        Seq::empty()
    } else {
        let half = pow2((depth - 1) as nat);
        let o = octant_spec(x >= half, y >= half, z >= half);
        let xr = if x >= half {
            (x - half) as nat
        } else {
            x
        };
        let yr = if y >= half {
            (y - half) as nat
        } else {
            y
        };
        let zr = if z >= half {
            (z - half) as nat
        } else {
            z
        };
        seq![o] + path_of(xr, yr, zr, (depth - 1) as nat)
    }
}

/// `2^e`, for exponents small enough that the result fits in `u128`.
pub fn pow2_u128(e: u8) -> (r: u128)
    requires
        e <= 127,
    ensures
        r == pow2(e as nat),
{
    let mut r: u128 = 1;
    let mut i: u8 = 0;
    proof {
        lemma2_to64();
    }
    while i < e
        invariant
            i <= e <= 127,
            r == pow2(i as nat),
        decreases e - i,
    {
        proof {
            lemma_pow2_unfold((i + 1) as nat);
            if i + 1 < 127 {
                lemma_pow2_strictly_increases((i + 1) as nat, 127);
            }
            lemma_pow2_adds(64, 63);
            lemma2_to64_rest();
            assert(pow2(127) == 0x8000_0000_0000_0000_0000_0000_0000_0000);
        }
        r = r * 2;
        i = i + 1;
    }
    r
}

/// Decomposes `(x, y, z)` at `depth` into its octant path.
///
/// The subtraction of the half-extent at each level is what routes the
/// remaining levels into the right sub-octant; a plain modulo or bit test
/// at each level without it would misroute every level but the innermost.
pub fn xyz_to_path(x: u128, y: u128, z: u128, depth: u8) -> (path: Vec<SubVlox>)
    requires
        depth <= crate::MAX_DEPTH,
        x < pow2(depth as nat),
        y < pow2(depth as nat),
        z < pow2(depth as nat),
    ensures
        path@ == path_of(x as nat, y as nat, z as nat, depth as nat),
{
    let mut path: Vec<SubVlox> = Vec::new();
    let mut xx = x;
    let mut yy = y;
    let mut zz = z;
    let mut level: u8 = depth;
    while level > 0
        invariant
            level <= depth <= crate::MAX_DEPTH,
            xx < pow2(level as nat),
            yy < pow2(level as nat),
            zz < pow2(level as nat),
            path_of(x as nat, y as nat, z as nat, depth as nat) == path@ + path_of(
                xx as nat,
                yy as nat,
                zz as nat,
                level as nat,
            ),
        decreases level,
    {
        let half: u128 = pow2_u128(level - 1);
        proof {
            lemma_pow2_pos((level - 1) as nat);
        }
        let o = octant_for(xx >= half, yy >= half, zz >= half);
        let ghost pre = path@;
        let ghost pre_xx = xx as nat;
        let ghost pre_yy = yy as nat;
        let ghost pre_zz = zz as nat;
        path.push(o);
        if xx >= half {
            xx = xx - half;
        }
        if yy >= half {
            yy = yy - half;
        }
        if zz >= half {
            zz = zz - half;
        }
        proof {
            lemma_pow2_unfold(level as nat);
            assert(path_of(pre_xx, pre_yy, pre_zz, level as nat) == seq![o] + path_of(
                xx as nat,
                yy as nat,
                zz as nat,
                (level - 1) as nat,
            ));
            assert(pre + (seq![o] + path_of(xx as nat, yy as nat, zz as nat, (level - 1) as nat))
                =~= path@ + path_of(xx as nat, yy as nat, zz as nat, (level - 1) as nat));
        }
        level = level - 1;
    }
    proof {
        assert(path@ + path_of(xx as nat, yy as nat, zz as nat, 0) =~= path@);
    }
    path
}

/// Halving a coordinate steps one level up the hierarchy: the path of a
/// child voxel at `depth + 1` is the path of its parent at `depth`,
/// extended by the octant that the per-axis parities select.
pub proof fn lemma_path_of_child(x: nat, y: nat, z: nat, depth: nat, dx: nat, dy: nat, dz: nat)
    requires
        x < pow2(depth),
        y < pow2(depth),
        z < pow2(depth),
        dx < 2,
        dy < 2,
        dz < 2,
    ensures
        path_of(2 * x + dx, 2 * y + dy, 2 * z + dz, depth + 1) == path_of(x, y, z, depth).push(
            octant_spec(dx == 1, dy == 1, dz == 1),
        ),
    decreases depth,
{
    let half = pow2(depth);
    lemma_pow2_pos(depth);
    lemma2_to64();
    if depth == 0 {
        assert(path_of(dx, dy, dz, 1) =~= path_of(x, y, z, 0).push(
            octant_spec(dx == 1, dy == 1, dz == 1),
        ));
    } else {
        let prev = pow2((depth - 1) as nat);
        lemma_pow2_unfold(depth);
        // the top-level high-half test agrees between parent and child
        assert(2 * x + dx >= half <==> x >= prev);
        let xr = if x >= prev {
            (x - prev) as nat
        } else {
            x
        };
        let yr = if y >= prev {
            (y - prev) as nat
        } else {
            y
        };
        let zr = if z >= prev {
            (z - prev) as nat
        } else {
            z
        };
        let cx = (2 * x + dx) as nat;
        let cy = (2 * y + dy) as nat;
        let cz = (2 * z + dz) as nat;
        let cxr = if cx >= half {
            (cx - half) as nat
        } else {
            cx
        };
        let cyr = if cy >= half {
            (cy - half) as nat
        } else {
            cy
        };
        let czr = if cz >= half {
            (cz - half) as nat
        } else {
            cz
        };
        assert(cxr == 2 * xr + dx);
        assert(cyr == 2 * yr + dy);
        assert(czr == 2 * zr + dz);
        lemma_path_of_child(xr, yr, zr, (depth - 1) as nat, dx, dy, dz);
        assert(path_of(cx, cy, cz, depth + 1) =~= path_of(x, y, z, depth).push(
            octant_spec(dx == 1, dy == 1, dz == 1),
        ));
    }
}

} // verus!
