//! The mesh extractor: scans a volume at a fixed sampling depth and emits
//! a triangle mesh whose quads are exactly the boundaries between
//! occupied and unoccupied voxels.
//!
//! A voxel is occupied when its material id resolves to a solid color;
//! everything else — void, custom, an unknown id, a palette gap — is
//! treated as void. For each occupied voxel, each of its six axis-aligned
//! faces is emitted when the single neighbor along that axis is void or
//! absent (a volume boundary always counts as exposed). Each emitted face
//! is a quad of four vertices with a constant outward normal and four
//! copies of the voxel's color, completed by six indices forming two
//! consistently wound triangles. No face merging is performed: this is a
//! per-voxel culled-cube mesher.
//!
//! Positions are in grid units of the sampling depth: an integer corner
//! coordinate in `[0, 2^depth]` per axis. Scaling by the voxel size and
//! recentering on the volume's origin is the caller's (floating-point)
//! concern.

use vstd::prelude::*;
use vstd::arithmetic::power2::{lemma2_to64, lemma_pow2_strictly_increases, pow2};

use crate::material::{solid_color_of, Color, Material, MaterialMap};
use crate::volume::VloxData;
use crate::{MaterialId, MAX_DEPTH};

verus! {

/// Greatest sampling depth the extractor accepts. The triangle list
/// indexes vertices with `u32`; a full volume at depth 10 could emit more
/// vertices than `u32` can address, so the bound sits at 9.
pub const MAX_MESH_DEPTH: u8 = 9;

/// One of the six axis-aligned outward face directions of a voxel.
#[derive(Clone, Copy, Debug, PartialEq, Eq, Structural)]
pub enum Face {
    XNeg,
    XPos,
    YNeg,
    YPos,
    ZNeg,
    ZPos,
}

/// A vertex position in grid units of the sampling depth.
#[derive(Clone, Copy, Debug, PartialEq, Eq, Structural)]
pub struct GridVertex {
    pub x: u32,
    pub y: u32,
    pub z: u32,
}

/// One exposed face of one occupied voxel: the mathematical record the
/// emitted buffers are specified against.
pub ghost struct MeshFace {
    pub x: nat,
    pub y: nat,
    pub z: nat,
    pub face: Face,
    pub color: Color,
}

/// The extracted mesh: index-aligned per-vertex buffers and a triangle
/// index list.
pub struct VloxMesh {
    pub positions: Vec<GridVertex>,
    pub normals: Vec<Face>,
    pub colors: Vec<Color>,
    pub indices: Vec<u32>,
}

/// Is the voxel `(x, y, z)` at `depth` occupied: does its material id
/// resolve to a solid color?
pub open spec fn occupied(
    vol: VloxData,
    reg: Map<MaterialId, Material>,
    depth: nat,
    x: nat,
    y: nat,
    z: nat,
) -> bool {
    solid_color_of(reg, vol.value_at(x, y, z, depth)) is Some
}

/// Is the face `f` of the voxel `(x, y, z)` exposed: is the single
/// neighbor along that axis void, or does the face lie on the volume
/// boundary?
pub open spec fn face_exposed(
    vol: VloxData,
    reg: Map<MaterialId, Material>,
    depth: nat,
    x: nat,
    y: nat,
    z: nat,
    f: Face,
) -> bool {
    match f {
        Face::XNeg => x == 0 || !occupied(vol, reg, depth, (x - 1) as nat, y, z),
        Face::XPos => x + 1 == pow2(depth) || !occupied(vol, reg, depth, x + 1, y, z),
        Face::YNeg => y == 0 || !occupied(vol, reg, depth, x, (y - 1) as nat, z),
        Face::YPos => y + 1 == pow2(depth) || !occupied(vol, reg, depth, x, y + 1, z),
        Face::ZNeg => z == 0 || !occupied(vol, reg, depth, x, y, (z - 1) as nat),
        Face::ZPos => z + 1 == pow2(depth) || !occupied(vol, reg, depth, x, y, z + 1),
    }
}

/// The faces one voxel contributes, in the fixed emission order
/// `XNeg, XPos, YNeg, YPos, ZNeg, ZPos`: none when the voxel is not
/// occupied, else one record per exposed face.
pub open spec fn cell_faces(
    vol: VloxData,
    reg: Map<MaterialId, Material>,
    depth: nat,
    x: nat,
    y: nat,
    z: nat,
) -> Seq<MeshFace> {
    match solid_color_of(reg, vol.value_at(x, y, z, depth)) {
        None => Seq::empty(),
        Some(c) => maybe_face(vol, reg, depth, x, y, z, Face::XNeg, c) + maybe_face(
            vol,
            reg,
            depth,
            x,
            y,
            z,
            Face::XPos,
            c,
        ) + maybe_face(vol, reg, depth, x, y, z, Face::YNeg, c) + maybe_face(
            vol,
            reg,
            depth,
            x,
            y,
            z,
            Face::YPos,
            c,
        ) + maybe_face(vol, reg, depth, x, y, z, Face::ZNeg, c) + maybe_face(
            vol,
            reg,
            depth,
            x,
            y,
            z,
            Face::ZPos,
            c,
        ),
    }
}

/// One face record if `f` is exposed, nothing otherwise.
pub open spec fn maybe_face(
    vol: VloxData,
    reg: Map<MaterialId, Material>,
    depth: nat,
    x: nat,
    y: nat,
    z: nat,
    f: Face,
    c: Color,
) -> Seq<MeshFace> {
    if face_exposed(vol, reg, depth, x, y, z, f) {
        seq![MeshFace { x, y, z, face: f, color: c }]
    } else {
        Seq::empty()
    }
}

/// The faces of the row `(x, y, 0..zc)`, scanned in increasing z.
pub open spec fn row_faces(
    vol: VloxData,
    reg: Map<MaterialId, Material>,
    depth: nat,
    x: nat,
    y: nat,
    zc: nat,
) -> Seq<MeshFace>
    decreases zc,
{
    if zc == 0 {
        Seq::empty()
    } else {
        row_faces(vol, reg, depth, x, y, (zc - 1) as nat) + cell_faces(
            vol,
            reg,
            depth,
            x,
            y,
            (zc - 1) as nat,
        )
    }
}

/// The faces of the plane `(x, 0..yc, 0..2^depth)`, rows scanned in
/// increasing y.
pub open spec fn plane_faces(
    vol: VloxData,
    reg: Map<MaterialId, Material>,
    depth: nat,
    x: nat,
    yc: nat,
) -> Seq<MeshFace>
    decreases yc,
{
    if yc == 0 {
        Seq::empty()
    } else {
        plane_faces(vol, reg, depth, x, (yc - 1) as nat) + row_faces(
            vol,
            reg,
            depth,
            x,
            (yc - 1) as nat,
            pow2(depth),
        )
    }
}

/// The faces of the planes `(0..xc, 0..2^depth, 0..2^depth)`, scanned in
/// increasing x.
pub open spec fn slab_faces(
    vol: VloxData,
    reg: Map<MaterialId, Material>,
    depth: nat,
    xc: nat,
) -> Seq<MeshFace>
    decreases xc,
{
    if xc == 0 {
        Seq::empty()
    } else {
        slab_faces(vol, reg, depth, (xc - 1) as nat) + plane_faces(
            vol,
            reg,
            depth,
            (xc - 1) as nat,
            pow2(depth),
        )
    }
}

/// Every face the whole scan of the volume emits, in scan order: x
/// outermost, then y, then z, then the fixed per-voxel face order.
pub open spec fn mesh_faces(
    vol: VloxData,
    reg: Map<MaterialId, Material>,
    depth: nat,
) -> Seq<MeshFace> {
    slab_faces(vol, reg, depth, pow2(depth))
}

/// The grid position of corner `j` (of 4) of a face's quad. The corner
/// order per face matches the emission order of the extractor.
pub open spec fn face_corner(f: Face, x: nat, y: nat, z: nat, j: int) -> (nat, nat, nat) {
    match f {
        Face::XNeg => if j == 0 {
            (x, y, z)
        } else if j == 1 {
            (x, y, z + 1)
        } else if j == 2 {
            (x, y + 1, z + 1)
        } else {
            (x, y + 1, z)
        },
        Face::XPos => if j == 0 {
            (x + 1, y, z)
        } else if j == 1 {
            (x + 1, y, z + 1)
        } else if j == 2 {
            (x + 1, y + 1, z + 1)
        } else {
            (x + 1, y + 1, z)
        },
        Face::YNeg => if j == 0 {
            (x, y, z)
        } else if j == 1 {
            (x + 1, y, z)
        } else if j == 2 {
            (x + 1, y, z + 1)
        } else {
            (x, y, z + 1)
        },
        Face::YPos => if j == 0 {
            (x, y + 1, z)
        } else if j == 1 {
            (x + 1, y + 1, z)
        } else if j == 2 {
            (x + 1, y + 1, z + 1)
        } else {
            (x, y + 1, z + 1)
        },
        Face::ZNeg => if j == 0 {
            (x, y, z)
        } else if j == 1 {
            (x, y + 1, z)
        } else if j == 2 {
            (x + 1, y + 1, z)
        } else {
            (x + 1, y, z)
        },
        Face::ZPos => if j == 0 {
            (x, y, z + 1)
        } else if j == 1 {
            (x, y + 1, z + 1)
        } else if j == 2 {
            (x + 1, y + 1, z + 1)
        } else {
            (x + 1, y, z + 1)
        },
    }
}

/// The offset (of 6) into a face's four quad corners for index `j` of its
/// two triangles. Faces on the negative side of their voxel wind
/// `0 1 2, 2 3 0`; faces on the positive side wind `0 3 2, 2 1 0`, which
/// flips the orientation so both triangles face outward.
pub open spec fn face_winding(f: Face, j: int) -> int {
    match f {
        Face::XNeg | Face::YNeg | Face::ZNeg => if j == 0 {
            0
        } else if j == 1 {
            1
        } else if j == 2 {
            2
        } else if j == 3 {
            2
        } else if j == 4 {
            3
        } else {
            0
        },
        Face::XPos | Face::YPos | Face::ZPos => if j == 0 {
            0
        } else if j == 1 {
            3
        } else if j == 2 {
            2
        } else if j == 3 {
            2
        } else if j == 4 {
            1
        } else {
            0
        },
    }
}

/// Vertex slot `4 i + j` of the buffers carries corner `j` of face record
/// `mf`, its face direction as normal, and its color.
pub open spec fn vertex_ok(
    positions: Seq<GridVertex>,
    normals: Seq<Face>,
    colors: Seq<Color>,
    mf: MeshFace,
    i: int,
    j: int,
) -> bool {
    let (cx, cy, cz) = face_corner(mf.face, mf.x, mf.y, mf.z, j);
    &&& positions[4 * i + j].x == cx
    &&& positions[4 * i + j].y == cy
    &&& positions[4 * i + j].z == cz
    &&& normals[4 * i + j] == mf.face
    &&& colors[4 * i + j] == mf.color
}

/// Index slot `6 i + j` points into the quad of face `i` as the winding
/// of `f` prescribes.
pub open spec fn index_ok(indices: Seq<u32>, f: Face, i: int, j: int) -> bool {
    indices[6 * i + j] == 4 * i + face_winding(f, j)
}

/// The four buffers carry exactly the face records `faces`: four vertices
/// and six indices per face, in order.
pub open spec fn buffers_match(
    positions: Seq<GridVertex>,
    normals: Seq<Face>,
    colors: Seq<Color>,
    indices: Seq<u32>,
    faces: Seq<MeshFace>,
) -> bool {
    &&& positions.len() == 4 * faces.len()
    &&& normals.len() == 4 * faces.len()
    &&& colors.len() == 4 * faces.len()
    &&& indices.len() == 6 * faces.len()
    &&& forall|i: int, j: int|
        0 <= i < faces.len() && 0 <= j < 4 ==> #[trigger] vertex_ok(
            positions,
            normals,
            colors,
            faces[i],
            i,
            j,
        )
    &&& forall|i: int, j: int|
        0 <= i < faces.len() && 0 <= j < 6 ==> #[trigger] index_ok(indices, faces[i].face, i, j)
}

/// Appends the four vertices, normals, colors and six indices of one
/// exposed face to the buffers.
fn emit_face(
    positions: &mut Vec<GridVertex>,
    normals: &mut Vec<Face>,
    colors: &mut Vec<Color>,
    indices: &mut Vec<u32>,
    x: u32,
    y: u32,
    z: u32,
    f: Face,
    c: Color,
)
    requires
        old(positions)@.len() + 4 <= u32::MAX,
        x < u32::MAX,
        y < u32::MAX,
        z < u32::MAX,
    ensures
        final(positions)@.len() == old(positions)@.len() + 4,
        final(normals)@.len() == old(normals)@.len() + 4,
        final(colors)@.len() == old(colors)@.len() + 4,
        final(indices)@.len() == old(indices)@.len() + 6,
        forall|k: int|
            0 <= k < old(positions)@.len() ==> final(positions)@[k] == old(positions)@[k],
        forall|k: int| 0 <= k < old(normals)@.len() ==> final(normals)@[k] == old(normals)@[k],
        forall|k: int| 0 <= k < old(colors)@.len() ==> final(colors)@[k] == old(colors)@[k],
        forall|k: int| 0 <= k < old(indices)@.len() ==> final(indices)@[k] == old(indices)@[k],
        forall|j: int|
            0 <= j < 4 ==> {
                let (cx, cy, cz) = face_corner(f, x as nat, y as nat, z as nat, j);
                &&& (#[trigger] final(positions)@[old(positions)@.len() + j]).x == cx
                &&& final(positions)@[old(positions)@.len() + j].y == cy
                &&& final(positions)@[old(positions)@.len() + j].z == cz
            },
        forall|j: int| 0 <= j < 4 ==> #[trigger] final(normals)@[old(normals)@.len() + j] == f,
        forall|j: int| 0 <= j < 4 ==> #[trigger] final(colors)@[old(colors)@.len() + j] == c,
        forall|j: int|
            0 <= j < 6 ==> #[trigger] final(indices)@[old(indices)@.len() + j] == old(
                positions,
            )@.len() + face_winding(f, j),
{
    let base = positions.len() as u32;
    match f {
        Face::XNeg => {
            positions.push(GridVertex { x, y, z });
            positions.push(GridVertex { x, y, z: z + 1 });
            positions.push(GridVertex { x, y: y + 1, z: z + 1 });
            positions.push(GridVertex { x, y: y + 1, z });
        },
        Face::XPos => {
            positions.push(GridVertex { x: x + 1, y, z });
            positions.push(GridVertex { x: x + 1, y, z: z + 1 });
            positions.push(GridVertex { x: x + 1, y: y + 1, z: z + 1 });
            positions.push(GridVertex { x: x + 1, y: y + 1, z });
        },
        Face::YNeg => {
            positions.push(GridVertex { x, y, z });
            positions.push(GridVertex { x: x + 1, y, z });
            positions.push(GridVertex { x: x + 1, y, z: z + 1 });
            positions.push(GridVertex { x, y, z: z + 1 });
        },
        Face::YPos => {
            positions.push(GridVertex { x, y: y + 1, z });
            positions.push(GridVertex { x: x + 1, y: y + 1, z });
            positions.push(GridVertex { x: x + 1, y: y + 1, z: z + 1 });
            positions.push(GridVertex { x, y: y + 1, z: z + 1 });
        },
        Face::ZNeg => {
            positions.push(GridVertex { x, y, z });
            positions.push(GridVertex { x, y: y + 1, z });
            positions.push(GridVertex { x: x + 1, y: y + 1, z });
            positions.push(GridVertex { x: x + 1, y, z });
        },
        Face::ZPos => {
            positions.push(GridVertex { x, y, z: z + 1 });
            positions.push(GridVertex { x, y: y + 1, z: z + 1 });
            positions.push(GridVertex { x: x + 1, y: y + 1, z: z + 1 });
            positions.push(GridVertex { x: x + 1, y, z: z + 1 });
        },
    }
    normals.push(f);
    normals.push(f);
    normals.push(f);
    normals.push(f);
    colors.push(c);
    colors.push(c);
    colors.push(c);
    colors.push(c);
    match f {
        Face::XNeg | Face::YNeg | Face::ZNeg => {
            indices.push(base);
            indices.push(base + 1);
            indices.push(base + 2);
            indices.push(base + 2);
            indices.push(base + 3);
            indices.push(base);
        },
        Face::XPos | Face::YPos | Face::ZPos => {
            indices.push(base);
            indices.push(base + 3);
            indices.push(base + 2);
            indices.push(base + 2);
            indices.push(base + 1);
            indices.push(base);
        },
    }
}

/// Extending matching buffers by the four vertices and six indices of one
/// more face record keeps them matching.
proof fn lemma_buffers_extend(
    p0: Seq<GridVertex>,
    n0: Seq<Face>,
    c0: Seq<Color>,
    i0: Seq<u32>,
    p1: Seq<GridVertex>,
    n1: Seq<Face>,
    c1: Seq<Color>,
    i1: Seq<u32>,
    faces: Seq<MeshFace>,
    mf: MeshFace,
)
    requires
        buffers_match(p0, n0, c0, i0, faces),
        p1.len() == p0.len() + 4,
        n1.len() == n0.len() + 4,
        c1.len() == c0.len() + 4,
        i1.len() == i0.len() + 6,
        forall|k: int| 0 <= k < p0.len() ==> p1[k] == p0[k],
        forall|k: int| 0 <= k < n0.len() ==> n1[k] == n0[k],
        forall|k: int| 0 <= k < c0.len() ==> c1[k] == c0[k],
        forall|k: int| 0 <= k < i0.len() ==> i1[k] == i0[k],
        forall|j: int|
            0 <= j < 4 ==> {
                let (cx, cy, cz) = face_corner(mf.face, mf.x, mf.y, mf.z, j);
                &&& (#[trigger] p1[p0.len() + j]).x == cx
                &&& p1[p0.len() + j].y == cy
                &&& p1[p0.len() + j].z == cz
            },
        forall|j: int| 0 <= j < 4 ==> #[trigger] n1[n0.len() + j] == mf.face,
        forall|j: int| 0 <= j < 4 ==> #[trigger] c1[c0.len() + j] == mf.color,
        forall|j: int|
            0 <= j < 6 ==> #[trigger] i1[i0.len() + j] == p0.len() + face_winding(mf.face, j),
    ensures
        buffers_match(p1, n1, c1, i1, faces.push(mf)),
{
    let fs = faces.push(mf);
    let n = faces.len() as int;
    assert forall|i: int, j: int|
        0 <= i < fs.len() && 0 <= j < 4 implies #[trigger] vertex_ok(p1, n1, c1, fs[i], i, j) by {
        if i < n {
            assert(fs[i] == faces[i]);
            assert(vertex_ok(p0, n0, c0, faces[i], i, j));
            assert(0 <= 4 * i + j < 4 * n);
        } else {
            assert(fs[i] == mf);
            assert(4 * i + j == p0.len() + j);
        }
    }
    assert forall|i: int, j: int|
        0 <= i < fs.len() && 0 <= j < 6 implies #[trigger] index_ok(i1, fs[i].face, i, j) by {
        if i < n {
            assert(fs[i] == faces[i]);
            assert(index_ok(i0, faces[i].face, i, j));
            assert(0 <= 6 * i + j < 6 * n);
        } else {
            assert(fs[i] == mf);
            assert(6 * i + j == i0.len() + j);
            assert(4 * i == p0.len());
        }
    }
}

/// Is the vertex inside the closed grid cube `[0, b]^3`?
pub open spec fn in_cube(v: GridVertex, b: nat) -> bool {
    &&& v.x <= b
    &&& v.y <= b
    &&& v.z <= b
}

/// A row of `zc` voxels contributes at most `6 zc` faces.
pub proof fn lemma_row_faces_len(
    vol: VloxData,
    reg: Map<MaterialId, Material>,
    depth: nat,
    x: nat,
    y: nat,
    zc: nat,
)
    ensures
        row_faces(vol, reg, depth, x, y, zc).len() <= 6 * zc,
    decreases zc,
{
    if zc > 0 {
        lemma_row_faces_len(vol, reg, depth, x, y, (zc - 1) as nat);
    }
}

/// A plane of `yc` rows contributes at most `6 * 2^depth * yc` faces.
pub proof fn lemma_plane_faces_len(
    vol: VloxData,
    reg: Map<MaterialId, Material>,
    depth: nat,
    x: nat,
    yc: nat,
)
    ensures
        plane_faces(vol, reg, depth, x, yc).len() <= 6 * pow2(depth) * yc,
    decreases yc,
{
    let b = pow2(depth);
    if yc > 0 {
        lemma_plane_faces_len(vol, reg, depth, x, (yc - 1) as nat);
        lemma_row_faces_len(vol, reg, depth, x, (yc - 1) as nat, b);
        assert(6 * b * (yc - 1) + 6 * b == 6 * b * yc) by (nonlinear_arith);
    }
}

/// `xc` planes contribute at most `6 * 2^depth * 2^depth * xc` faces.
pub proof fn lemma_slab_faces_len(
    vol: VloxData,
    reg: Map<MaterialId, Material>,
    depth: nat,
    xc: nat,
)
    ensures
        slab_faces(vol, reg, depth, xc).len() <= 6 * pow2(depth) * pow2(depth) * xc,
    decreases xc,
{
    let b = pow2(depth);
    if xc > 0 {
        lemma_slab_faces_len(vol, reg, depth, (xc - 1) as nat);
        lemma_plane_faces_len(vol, reg, depth, (xc - 1) as nat, b);
        assert(6 * b * b * (xc - 1) + 6 * b * b == 6 * b * b * xc) by (nonlinear_arith);
    }
}

/// Samples one voxel: its resolved solid color, or `None` where its
/// material resolves to void.
fn sample_solid(vol: &VloxData, materials: &MaterialMap, x: u32, y: u32, z: u32, depth: u8) -> (r:
    Option<Color>)
    requires
        depth <= MAX_DEPTH,
        (x as nat) < pow2(depth as nat),
        (y as nat) < pow2(depth as nat),
        (z as nat) < pow2(depth as nat),
    ensures
        r == solid_color_of(materials@, vol.value_at(x as nat, y as nat, z as nat, depth as nat)),
        (r is Some) == occupied(*vol, materials@, depth as nat, x as nat, y as nat, z as nat),
{
    match vol.get(x as u128, y as u128, z as u128, depth) {
        Ok(id) => materials.solid_color(id),
        Err(_) => {
            proof {
                assert(false);
            }
            None
        },
    }
}

/// Emits one face and accounts for it in the ghost face list the buffers
/// are matched against.
fn emit_tracked(
    positions: &mut Vec<GridVertex>,
    normals: &mut Vec<Face>,
    colors: &mut Vec<Color>,
    indices: &mut Vec<u32>,
    x: u32,
    y: u32,
    z: u32,
    f: Face,
    c: Color,
    Ghost(faces): Ghost<Seq<MeshFace>>,
    Ghost(bound): Ghost<nat>,
) -> (r: Ghost<Seq<MeshFace>>)
    requires
        buffers_match(old(positions)@, old(normals)@, old(colors)@, old(indices)@, faces),
        faces.len() < 0x3000_0000,
        x < u32::MAX,
        y < u32::MAX,
        z < u32::MAX,
        x + 1 <= bound,
        y + 1 <= bound,
        z + 1 <= bound,
        forall|k: int|
            0 <= k < old(positions)@.len() ==> in_cube(#[trigger] old(positions)@[k], bound),
    ensures
        r@ == faces.push(
            MeshFace { x: x as nat, y: y as nat, z: z as nat, face: f, color: c },
        ),
        buffers_match(final(positions)@, final(normals)@, final(colors)@, final(indices)@, r@),
        forall|k: int|
            0 <= k < final(positions)@.len() ==> in_cube(#[trigger] final(positions)@[k], bound),
{
    let ghost p0 = positions@;
    let ghost n0 = normals@;
    let ghost c0 = colors@;
    let ghost i0 = indices@;
    emit_face(positions, normals, colors, indices, x, y, z, f, c);
    let ghost mf = MeshFace { x: x as nat, y: y as nat, z: z as nat, face: f, color: c };
    proof {
        lemma_buffers_extend(
            p0,
            n0,
            c0,
            i0,
            positions@,
            normals@,
            colors@,
            indices@,
            faces,
            mf,
        );
        assert forall|k: int|
            0 <= k < positions@.len() implies in_cube(#[trigger] positions@[k], bound) by {
            if k >= p0.len() {
                let j = k - p0.len();
                assert(positions@[p0.len() + j].x <= bound && positions@[p0.len() + j].y <= bound
                    && positions@[p0.len() + j].z <= bound);
            }
        }
    }
    Ghost(faces.push(mf))
}

/// Emits the exposed faces of one occupied voxel in the fixed order,
/// given the six exposure tests, extending the ghost face list by exactly
/// the voxel's face records.
#[verifier::rlimit(100)]
#[verifier::spinoff_prover]
fn emit_exposed_faces(
    vol: &VloxData,
    materials: &MaterialMap,
    positions: &mut Vec<GridVertex>,
    normals: &mut Vec<Face>,
    colors: &mut Vec<Color>,
    indices: &mut Vec<u32>,
    vx: u32,
    vy: u32,
    vz: u32,
    depth: u8,
    blocks: u32,
    col: Color,
    e_xneg: bool,
    e_xpos: bool,
    e_yneg: bool,
    e_ypos: bool,
    e_zneg: bool,
    e_zpos: bool,
    Ghost(faces): Ghost<Seq<MeshFace>>,
) -> (r: Ghost<Seq<MeshFace>>)
    requires
        depth <= MAX_MESH_DEPTH,
        blocks == pow2(depth as nat),
        blocks <= 512,
        vx < blocks,
        vy < blocks,
        vz < blocks,
        solid_color_of(materials@, vol.value_at(vx as nat, vy as nat, vz as nat, depth as nat))
            == Some(col),
        e_xneg == face_exposed(*vol, materials@, depth as nat, vx as nat, vy as nat, vz as nat, Face::XNeg),
        e_xpos == face_exposed(*vol, materials@, depth as nat, vx as nat, vy as nat, vz as nat, Face::XPos),
        e_yneg == face_exposed(*vol, materials@, depth as nat, vx as nat, vy as nat, vz as nat, Face::YNeg),
        e_ypos == face_exposed(*vol, materials@, depth as nat, vx as nat, vy as nat, vz as nat, Face::YPos),
        e_zneg == face_exposed(*vol, materials@, depth as nat, vx as nat, vy as nat, vz as nat, Face::ZNeg),
        e_zpos == face_exposed(*vol, materials@, depth as nat, vx as nat, vy as nat, vz as nat, Face::ZPos),
        buffers_match(old(positions)@, old(normals)@, old(colors)@, old(indices)@, faces),
        faces.len() + 6 <= 0x3000_0000,
        forall|k: int|
            0 <= k < old(positions)@.len() ==> in_cube(
                #[trigger] old(positions)@[k],
                blocks as nat,
            ),
    ensures
        r@ == faces + cell_faces(
            *vol,
            materials@,
            depth as nat,
            vx as nat,
            vy as nat,
            vz as nat,
        ),
        buffers_match(final(positions)@, final(normals)@, final(colors)@, final(indices)@, r@),
        forall|k: int|
            0 <= k < final(positions)@.len() ==> in_cube(
                #[trigger] final(positions)@[k],
                blocks as nat,
            ),
{
    let ghost d = depth as nat;
    let ghost x = vx as nat;
    let ghost y = vy as nat;
    let ghost z = vz as nat;
    let ghost mut cur = faces;
    if e_xneg {
        let g = emit_tracked(positions, normals, colors, indices, vx, vy, vz, Face::XNeg, col,
            Ghost(cur), Ghost(blocks as nat));
        proof {
            cur = g@;
        }
    }
    proof {
        assert(cur =~= faces + maybe_face(*vol, materials@, d, x, y, z, Face::XNeg, col));
    }
    let ghost c1 = cur;
    if e_xpos {
        let g = emit_tracked(positions, normals, colors, indices, vx, vy, vz, Face::XPos, col,
            Ghost(cur), Ghost(blocks as nat));
        proof {
            cur = g@;
        }
    }
    proof {
        assert(cur =~= c1 + maybe_face(*vol, materials@, d, x, y, z, Face::XPos, col));
    }
    let ghost c2 = cur;
    if e_yneg {
        let g = emit_tracked(positions, normals, colors, indices, vx, vy, vz, Face::YNeg, col,
            Ghost(cur), Ghost(blocks as nat));
        proof {
            cur = g@;
        }
    }
    proof {
        assert(cur =~= c2 + maybe_face(*vol, materials@, d, x, y, z, Face::YNeg, col));
    }
    let ghost c3 = cur;
    if e_ypos {
        let g = emit_tracked(positions, normals, colors, indices, vx, vy, vz, Face::YPos, col,
            Ghost(cur), Ghost(blocks as nat));
        proof {
            cur = g@;
        }
    }
    proof {
        assert(cur =~= c3 + maybe_face(*vol, materials@, d, x, y, z, Face::YPos, col));
    }
    let ghost c4 = cur;
    if e_zneg {
        let g = emit_tracked(positions, normals, colors, indices, vx, vy, vz, Face::ZNeg, col,
            Ghost(cur), Ghost(blocks as nat));
        proof {
            cur = g@;
        }
    }
    proof {
        assert(cur =~= c4 + maybe_face(*vol, materials@, d, x, y, z, Face::ZNeg, col));
    }
    let ghost c5 = cur;
    if e_zpos {
        let g = emit_tracked(positions, normals, colors, indices, vx, vy, vz, Face::ZPos, col,
            Ghost(cur), Ghost(blocks as nat));
        proof {
            cur = g@;
        }
    }
    proof {
        assert(cur =~= c5 + maybe_face(*vol, materials@, d, x, y, z, Face::ZPos, col));
        assert(cur =~= faces + cell_faces(*vol, materials@, d, x, y, z));
    }
    Ghost(cur)
}

/// Samples one voxel and, when it is occupied, emits each of its exposed
/// faces in the fixed order, extending the ghost face list accordingly.
#[verifier::rlimit(100)]
#[verifier::spinoff_prover]
fn process_cell(
    vol: &VloxData,
    materials: &MaterialMap,
    positions: &mut Vec<GridVertex>,
    normals: &mut Vec<Face>,
    colors: &mut Vec<Color>,
    indices: &mut Vec<u32>,
    vx: u32,
    vy: u32,
    vz: u32,
    depth: u8,
    blocks: u32,
    Ghost(faces): Ghost<Seq<MeshFace>>,
) -> (r: Ghost<Seq<MeshFace>>)
    requires
        depth <= MAX_MESH_DEPTH,
        blocks == pow2(depth as nat),
        blocks <= 512,
        vx < blocks,
        vy < blocks,
        vz < blocks,
        buffers_match(old(positions)@, old(normals)@, old(colors)@, old(indices)@, faces),
        faces.len() + 6 <= 0x3000_0000,
        forall|k: int|
            0 <= k < old(positions)@.len() ==> in_cube(
                #[trigger] old(positions)@[k],
                blocks as nat,
            ),
    ensures
        r@ == faces + cell_faces(
            *vol,
            materials@,
            depth as nat,
            vx as nat,
            vy as nat,
            vz as nat,
        ),
        buffers_match(final(positions)@, final(normals)@, final(colors)@, final(indices)@, r@),
        forall|k: int|
            0 <= k < final(positions)@.len() ==> in_cube(
                #[trigger] final(positions)@[k],
                blocks as nat,
            ),
{
    let ghost d = depth as nat;
    let ghost x = vx as nat;
    let ghost y = vy as nat;
    let ghost z = vz as nat;
    let here = sample_solid(vol, materials, vx, vy, vz, depth);
    if let Some(col) = here {
        let e_xneg = vx == 0 || sample_solid(vol, materials, vx - 1, vy, vz, depth).is_none();
        let e_xpos = vx + 1 == blocks || sample_solid(vol, materials, vx + 1, vy, vz, depth).is_none();
        let e_yneg = vy == 0 || sample_solid(vol, materials, vx, vy - 1, vz, depth).is_none();
        let e_ypos = vy + 1 == blocks || sample_solid(vol, materials, vx, vy + 1, vz, depth).is_none();
        let e_zneg = vz == 0 || sample_solid(vol, materials, vx, vy, vz - 1, depth).is_none();
        let e_zpos = vz + 1 == blocks || sample_solid(vol, materials, vx, vy, vz + 1, depth).is_none();
        proof {
            assert(e_xneg == face_exposed(*vol, materials@, d, x, y, z, Face::XNeg));
            assert(e_xpos == face_exposed(*vol, materials@, d, x, y, z, Face::XPos));
            assert(e_yneg == face_exposed(*vol, materials@, d, x, y, z, Face::YNeg));
            assert(e_ypos == face_exposed(*vol, materials@, d, x, y, z, Face::YPos));
            assert(e_zneg == face_exposed(*vol, materials@, d, x, y, z, Face::ZNeg));
            assert(e_zpos == face_exposed(*vol, materials@, d, x, y, z, Face::ZPos));
        }
        emit_exposed_faces(
            vol,
            materials,
            positions,
            normals,
            colors,
            indices,
            vx,
            vy,
            vz,
            depth,
            blocks,
            col,
            e_xneg,
            e_xpos,
            e_yneg,
            e_ypos,
            e_zneg,
            e_zpos,
            Ghost(faces),
        )
    } else {
        proof {
            assert(cell_faces(*vol, materials@, d, x, y, z) =~= Seq::<MeshFace>::empty());
            assert(faces =~= faces + cell_faces(*vol, materials@, d, x, y, z));
        }
        Ghost(faces)
    }
}

impl VloxData {
    /// Scans every voxel of the volume at `depth` and emits the culled
    /// cube mesh: the buffers carry, in scan order, exactly the exposed
    /// faces of the occupied voxels, and every vertex lies inside the
    /// grid cube `[0, 2^depth]^3`.
    ///
    /// Positions are in grid units; multiplying by the voxel size and
    /// subtracting half the edge length recenters the mesh on the origin.
    #[verifier::rlimit(100)]
    pub fn compute_mesh_at_depth(&self, depth: u8, materials: &MaterialMap) -> (mesh: VloxMesh)
        requires
            depth <= MAX_MESH_DEPTH,
        ensures
            buffers_match(
                mesh.positions@,
                mesh.normals@,
                mesh.colors@,
                mesh.indices@,
                mesh_faces(*self, materials@, depth as nat),
            ),
            forall|k: int|
                0 <= k < mesh.positions@.len() ==> in_cube(
                    #[trigger] mesh.positions@[k],
                    pow2(depth as nat),
                ),
    {
        proof {
            lemma2_to64();
            if depth < 9 {
                lemma_pow2_strictly_increases(depth as nat, 9);
            }
        }
        let blocks: u32 = crate::codec::pow2_u128(depth) as u32;
        proof {
            assert(blocks == pow2(depth as nat));
            assert(blocks <= 512);
        }
        let ghost d = depth as nat;

        let mut positions: Vec<GridVertex> = Vec::new();
        let mut normals: Vec<Face> = Vec::new();
        let mut colors: Vec<Color> = Vec::new();
        let mut indices: Vec<u32> = Vec::new();
        let ghost mut cur = Seq::<MeshFace>::empty();

        let mut vx: u32 = 0;
        while vx < blocks
            invariant
                depth <= MAX_MESH_DEPTH,
                blocks == pow2(depth as nat),
                blocks <= 512,
                d == depth as nat,
                vx <= blocks,
                cur == slab_faces(*self, materials@, d, vx as nat),
                buffers_match(positions@, normals@, colors@, indices@, cur),
                forall|k: int|
                    0 <= k < positions@.len() ==> in_cube(
                        #[trigger] positions@[k],
                        blocks as nat,
                    ),
            decreases blocks - vx,
        {
            let mut vy: u32 = 0;
            let ghost slab_base = cur;
            while vy < blocks
                invariant
                    depth <= MAX_MESH_DEPTH,
                    blocks == pow2(depth as nat),
                    blocks <= 512,
                    d == depth as nat,
                    vx < blocks,
                    vy <= blocks,
                    slab_base == slab_faces(*self, materials@, d, vx as nat),
                    cur == slab_base + plane_faces(*self, materials@, d, vx as nat, vy as nat),
                    buffers_match(positions@, normals@, colors@, indices@, cur),
                    forall|k: int|
                        0 <= k < positions@.len() ==> in_cube(
                            #[trigger] positions@[k],
                            blocks as nat,
                        ),
                decreases blocks - vy,
            {
                let mut vz: u32 = 0;
                let ghost plane_base = cur;
                while vz < blocks
                    invariant
                        depth <= MAX_MESH_DEPTH,
                        blocks == pow2(depth as nat),
                        blocks <= 512,
                        d == depth as nat,
                        vx < blocks,
                        vy < blocks,
                        vz <= blocks,
                        plane_base == slab_faces(*self, materials@, d, vx as nat) + plane_faces(
                            *self,
                            materials@,
                            d,
                            vx as nat,
                            vy as nat,
                        ),
                        cur == plane_base + row_faces(
                            *self,
                            materials@,
                            d,
                            vx as nat,
                            vy as nat,
                            vz as nat,
                        ),
                        buffers_match(positions@, normals@, colors@, indices@, cur),
                        forall|k: int|
                            0 <= k < positions@.len() ==> in_cube(
                                #[trigger] positions@[k],
                                blocks as nat,
                            ),
                    decreases blocks - vz,
                {
                    proof {
                        lemma_slab_faces_len(*self, materials@, d, vx as nat);
                        lemma_plane_faces_len(*self, materials@, d, vx as nat, vy as nat);
                        lemma_row_faces_len(*self, materials@, d, vx as nat, vy as nat, vz as nat);
                        assert(cur.len() + 6 <= 0x3000_0000) by (nonlinear_arith)
                            requires
                                cur.len() <= 6 * pow2(d) * pow2(d) * (vx as nat) + 6 * pow2(d) * (
                                vy as nat) + 6 * (vz as nat),
                                pow2(d) <= 512,
                                (vx as nat) < pow2(d),
                                (vy as nat) < pow2(d),
                                (vz as nat) < pow2(d),
                        ;
                    }
                    let g = process_cell(
                        self,
                        materials,
                        &mut positions,
                        &mut normals,
                        &mut colors,
                        &mut indices,
                        vx,
                        vy,
                        vz,
                        depth,
                        blocks,
                        Ghost(cur),
                    );
                    proof {
                        cur = g@;
                        assert(row_faces(*self, materials@, d, vx as nat, vy as nat, vz as nat + 1)
                            == row_faces(*self, materials@, d, vx as nat, vy as nat, vz as nat)
                            + cell_faces(*self, materials@, d, vx as nat, vy as nat, vz as nat));
                        assert(cur =~= plane_base + row_faces(
                            *self,
                            materials@,
                            d,
                            vx as nat,
                            vy as nat,
                            vz as nat + 1,
                        ));
                    }
                    vz = vz + 1;
                }
                proof {
                    assert(plane_faces(*self, materials@, d, vx as nat, vy as nat + 1)
                        == plane_faces(*self, materials@, d, vx as nat, vy as nat) + row_faces(
                        *self,
                        materials@,
                        d,
                        vx as nat,
                        vy as nat,
                        pow2(d),
                    ));
                    assert(cur =~= slab_base + plane_faces(
                        *self,
                        materials@,
                        d,
                        vx as nat,
                        vy as nat + 1,
                    ));
                }
                vy = vy + 1;
            }
            proof {
                assert(slab_faces(*self, materials@, d, vx as nat + 1) == slab_faces(
                    *self,
                    materials@,
                    d,
                    vx as nat,
                ) + plane_faces(*self, materials@, d, vx as nat, pow2(d)));
                assert(cur =~= slab_faces(*self, materials@, d, vx as nat + 1));
            }
            vx = vx + 1;
        }
        VloxMesh { positions, normals, colors, indices }
    }
}

/// Concatenation holds an element exactly when one of its parts does.
proof fn lemma_concat_contains<T>(a: Seq<T>, b: Seq<T>, x: T)
    ensures
        (a + b).contains(x) <==> a.contains(x) || b.contains(x),
{
    if a.contains(x) {
        let i = choose|i: int| 0 <= i < a.len() && a[i] == x;
        assert((a + b)[i] == x);
    }
    if b.contains(x) {
        let i = choose|i: int| 0 <= i < b.len() && b[i] == x;
        assert((a + b)[a.len() + i] == x);
    }
    if (a + b).contains(x) {
        let i = choose|i: int| 0 <= i < (a + b).len() && (a + b)[i] == x;
        if i < a.len() {
            assert(a[i] == x);
        } else {
            assert(b[i - a.len()] == x);
        }
    }
}

/// Is `mf` a face record the volume's occupied/void boundary calls for:
/// an in-range voxel whose material resolves to the record's color, with
/// the record's face direction exposed?
pub open spec fn boundary_face(
    vol: VloxData,
    reg: Map<MaterialId, Material>,
    depth: nat,
    mf: MeshFace,
) -> bool {
    &&& mf.x < pow2(depth)
    &&& mf.y < pow2(depth)
    &&& mf.z < pow2(depth)
    &&& solid_color_of(reg, vol.value_at(mf.x, mf.y, mf.z, depth)) == Some(mf.color)
    &&& face_exposed(vol, reg, depth, mf.x, mf.y, mf.z, mf.face)
}

/// One voxel's contribution holds `mf` exactly when `mf` records that
/// voxel, its resolved color, and one of its exposed faces.
proof fn lemma_cell_faces_contains(
    vol: VloxData,
    reg: Map<MaterialId, Material>,
    depth: nat,
    x: nat,
    y: nat,
    z: nat,
    mf: MeshFace,
)
    ensures
        cell_faces(vol, reg, depth, x, y, z).contains(mf) <==> {
            &&& mf.x == x
            &&& mf.y == y
            &&& mf.z == z
            &&& solid_color_of(reg, vol.value_at(x, y, z, depth)) == Some(mf.color)
            &&& face_exposed(vol, reg, depth, x, y, z, mf.face)
        },
{
    match solid_color_of(reg, vol.value_at(x, y, z, depth)) {
        None => {
        },
        Some(c) => {
            let m0 = maybe_face(vol, reg, depth, x, y, z, Face::XNeg, c);
            let m1 = maybe_face(vol, reg, depth, x, y, z, Face::XPos, c);
            let m2 = maybe_face(vol, reg, depth, x, y, z, Face::YNeg, c);
            let m3 = maybe_face(vol, reg, depth, x, y, z, Face::YPos, c);
            let m4 = maybe_face(vol, reg, depth, x, y, z, Face::ZNeg, c);
            let m5 = maybe_face(vol, reg, depth, x, y, z, Face::ZPos, c);
            lemma_concat_contains(m0, m1, mf);
            lemma_concat_contains(m0 + m1, m2, mf);
            lemma_concat_contains(m0 + m1 + m2, m3, mf);
            lemma_concat_contains(m0 + m1 + m2 + m3, m4, mf);
            lemma_concat_contains(m0 + m1 + m2 + m3 + m4, m5, mf);
            assert(cell_faces(vol, reg, depth, x, y, z) == m0 + m1 + m2 + m3 + m4 + m5);
            // a called-for record sits in the part for its face direction
            if mf.x == x && mf.y == y && mf.z == z && mf.color == c && face_exposed(
                vol,
                reg,
                depth,
                x,
                y,
                z,
                mf.face,
            ) {
                match mf.face {
                    Face::XNeg => {
                        assert(m0[0] == mf);
                    },
                    Face::XPos => {
                        assert(m1[0] == mf);
                    },
                    Face::YNeg => {
                        assert(m2[0] == mf);
                    },
                    Face::YPos => {
                        assert(m3[0] == mf);
                    },
                    Face::ZNeg => {
                        assert(m4[0] == mf);
                    },
                    Face::ZPos => {
                        assert(m5[0] == mf);
                    },
                }
            }
        },
    }
}

/// A row holds `mf` exactly when `mf` records a boundary face of one of
/// the row's voxels.
proof fn lemma_row_faces_contains(
    vol: VloxData,
    reg: Map<MaterialId, Material>,
    depth: nat,
    x: nat,
    y: nat,
    zc: nat,
    mf: MeshFace,
)
    ensures
        row_faces(vol, reg, depth, x, y, zc).contains(mf) <==> {
            &&& mf.x == x
            &&& mf.y == y
            &&& mf.z < zc
            &&& solid_color_of(reg, vol.value_at(mf.x, mf.y, mf.z, depth)) == Some(mf.color)
            &&& face_exposed(vol, reg, depth, mf.x, mf.y, mf.z, mf.face)
        },
    decreases zc,
{
    if zc > 0 {
        let zlast = (zc - 1) as nat;
        lemma_row_faces_contains(vol, reg, depth, x, y, zlast, mf);
        lemma_cell_faces_contains(vol, reg, depth, x, y, zlast, mf);
        lemma_concat_contains(
            row_faces(vol, reg, depth, x, y, zlast),
            cell_faces(vol, reg, depth, x, y, zlast),
            mf,
        );
    }
}

/// A plane holds `mf` exactly when `mf` records a boundary face of one
/// of the plane's voxels.
proof fn lemma_plane_faces_contains(
    vol: VloxData,
    reg: Map<MaterialId, Material>,
    depth: nat,
    x: nat,
    yc: nat,
    mf: MeshFace,
)
    ensures
        plane_faces(vol, reg, depth, x, yc).contains(mf) <==> {
            &&& mf.x == x
            &&& mf.y < yc
            &&& mf.z < pow2(depth)
            &&& solid_color_of(reg, vol.value_at(mf.x, mf.y, mf.z, depth)) == Some(mf.color)
            &&& face_exposed(vol, reg, depth, mf.x, mf.y, mf.z, mf.face)
        },
    decreases yc,
{
    if yc > 0 {
        let ylast = (yc - 1) as nat;
        lemma_plane_faces_contains(vol, reg, depth, x, ylast, mf);
        lemma_row_faces_contains(vol, reg, depth, x, ylast, pow2(depth), mf);
        lemma_concat_contains(
            plane_faces(vol, reg, depth, x, ylast),
            row_faces(vol, reg, depth, x, ylast, pow2(depth)),
            mf,
        );
    }
}

/// The first `xc` planes hold `mf` exactly when `mf` records a boundary
/// face of one of their voxels.
proof fn lemma_slab_faces_contains(
    vol: VloxData,
    reg: Map<MaterialId, Material>,
    depth: nat,
    xc: nat,
    mf: MeshFace,
)
    ensures
        slab_faces(vol, reg, depth, xc).contains(mf) <==> {
            &&& mf.x < xc
            &&& mf.y < pow2(depth)
            &&& mf.z < pow2(depth)
            &&& solid_color_of(reg, vol.value_at(mf.x, mf.y, mf.z, depth)) == Some(mf.color)
            &&& face_exposed(vol, reg, depth, mf.x, mf.y, mf.z, mf.face)
        },
    decreases xc,
{
    if xc > 0 {
        let xlast = (xc - 1) as nat;
        lemma_slab_faces_contains(vol, reg, depth, xlast, mf);
        lemma_plane_faces_contains(vol, reg, depth, xlast, pow2(depth), mf);
        lemma_concat_contains(
            slab_faces(vol, reg, depth, xlast),
            plane_faces(vol, reg, depth, xlast, pow2(depth)),
            mf,
        );
    }
}

/// The extracted faces are exactly the boundaries between occupied and
/// unoccupied voxels: the scan emits a face record precisely for each
/// in-range voxel whose material resolves to a solid color and each of
/// its exposed face directions, with that color.
pub proof fn lemma_mesh_faces_exactly_boundaries(
    vol: VloxData,
    reg: Map<MaterialId, Material>,
    depth: nat,
    mf: MeshFace,
)
    ensures
        mesh_faces(vol, reg, depth).contains(mf) <==> boundary_face(vol, reg, depth, mf),
{
    lemma_slab_faces_contains(vol, reg, depth, pow2(depth), mf);
}

/// A voxel whose material id does not resolve to a solid color — the
/// registry maps it to void or custom, lacks the id, or its palette lacks
/// the resolved entry — contributes no face, whatever the raw integer id
/// stored in the volume; and every face of a neighboring voxel that looks
/// toward it is exposed.
pub proof fn lemma_void_resolution_no_faces(
    vol: VloxData,
    reg: Map<MaterialId, Material>,
    depth: nat,
    x: nat,
    y: nat,
    z: nat,
)
    requires
        solid_color_of(reg, vol.value_at(x, y, z, depth)) is None,
    ensures
        !occupied(vol, reg, depth, x, y, z),
        cell_faces(vol, reg, depth, x, y, z) == Seq::<MeshFace>::empty(),
        face_exposed(vol, reg, depth, x + 1, y, z, Face::XNeg),
        face_exposed(vol, reg, depth, x, y + 1, z, Face::YNeg),
        face_exposed(vol, reg, depth, x, y, z + 1, Face::ZNeg),
        x > 0 ==> face_exposed(vol, reg, depth, (x - 1) as nat, y, z, Face::XPos),
        y > 0 ==> face_exposed(vol, reg, depth, x, (y - 1) as nat, z, Face::YPos),
        z > 0 ==> face_exposed(vol, reg, depth, x, y, (z - 1) as nat, Face::ZPos),
{
}

/// Exactly one voxel of the sampled grid is occupied.
pub open spec fn only_occupied_at(
    vol: VloxData,
    reg: Map<MaterialId, Material>,
    depth: nat,
    x0: nat,
    y0: nat,
    z0: nat,
) -> bool {
    &&& x0 < pow2(depth)
    &&& y0 < pow2(depth)
    &&& z0 < pow2(depth)
    &&& occupied(vol, reg, depth, x0, y0, z0)
    &&& forall|x: nat, y: nat, z: nat|
        x < pow2(depth) && y < pow2(depth) && z < pow2(depth) && !(x == x0 && y == y0 && z == z0)
            ==> !(#[trigger] occupied(vol, reg, depth, x, y, z))
}

/// An isolated occupied voxel has all six of its faces exposed.
proof fn lemma_isolated_cell_faces_six(
    vol: VloxData,
    reg: Map<MaterialId, Material>,
    depth: nat,
    x0: nat,
    y0: nat,
    z0: nat,
)
    requires
        only_occupied_at(vol, reg, depth, x0, y0, z0),
    ensures
        cell_faces(vol, reg, depth, x0, y0, z0).len() == 6,
{
    assert(face_exposed(vol, reg, depth, x0, y0, z0, Face::XNeg)) by {
        if x0 > 0 {
            assert(!occupied(vol, reg, depth, (x0 - 1) as nat, y0, z0));
        }
    }
    assert(face_exposed(vol, reg, depth, x0, y0, z0, Face::XPos)) by {
        if x0 + 1 != pow2(depth) {
            assert(!occupied(vol, reg, depth, x0 + 1, y0, z0));
        }
    }
    assert(face_exposed(vol, reg, depth, x0, y0, z0, Face::YNeg)) by {
        if y0 > 0 {
            assert(!occupied(vol, reg, depth, x0, (y0 - 1) as nat, z0));
        }
    }
    assert(face_exposed(vol, reg, depth, x0, y0, z0, Face::YPos)) by {
        if y0 + 1 != pow2(depth) {
            assert(!occupied(vol, reg, depth, x0, y0 + 1, z0));
        }
    }
    assert(face_exposed(vol, reg, depth, x0, y0, z0, Face::ZNeg)) by {
        if z0 > 0 {
            assert(!occupied(vol, reg, depth, x0, y0, (z0 - 1) as nat));
        }
    }
    assert(face_exposed(vol, reg, depth, x0, y0, z0, Face::ZPos)) by {
        if z0 + 1 != pow2(depth) {
            assert(!occupied(vol, reg, depth, x0, y0, z0 + 1));
        }
    }
}

/// Under [`only_occupied_at`], a row's face count is the isolated cell's
/// count when the row passes through it and zero otherwise.
proof fn lemma_count_row_single(
    vol: VloxData,
    reg: Map<MaterialId, Material>,
    depth: nat,
    x0: nat,
    y0: nat,
    z0: nat,
    x: nat,
    y: nat,
    zc: nat,
)
    requires
        only_occupied_at(vol, reg, depth, x0, y0, z0),
        x < pow2(depth),
        y < pow2(depth),
        zc <= pow2(depth),
    ensures
        row_faces(vol, reg, depth, x, y, zc).len() == if x == x0 && y == y0 && z0 < zc {
            cell_faces(vol, reg, depth, x0, y0, z0).len()
        } else {
            0
        },
    decreases zc,
{
    if zc > 0 {
        let zlast = (zc - 1) as nat;
        lemma_count_row_single(vol, reg, depth, x0, y0, z0, x, y, zlast);
        if !(x == x0 && y == y0 && zlast == z0) {
            assert(!occupied(vol, reg, depth, x, y, zlast));
            assert(cell_faces(vol, reg, depth, x, y, zlast) =~= Seq::<MeshFace>::empty());
        }
    }
}

/// Under [`only_occupied_at`], a plane's face count is the isolated
/// cell's count when the plane contains it and zero otherwise.
proof fn lemma_count_plane_single(
    vol: VloxData,
    reg: Map<MaterialId, Material>,
    depth: nat,
    x0: nat,
    y0: nat,
    z0: nat,
    x: nat,
    yc: nat,
)
    requires
        only_occupied_at(vol, reg, depth, x0, y0, z0),
        x < pow2(depth),
        yc <= pow2(depth),
    ensures
        plane_faces(vol, reg, depth, x, yc).len() == if x == x0 && y0 < yc {
            cell_faces(vol, reg, depth, x0, y0, z0).len()
        } else {
            0
        },
    decreases yc,
{
    if yc > 0 {
        let ylast = (yc - 1) as nat;
        lemma_count_plane_single(vol, reg, depth, x0, y0, z0, x, ylast);
        lemma_count_row_single(vol, reg, depth, x0, y0, z0, x, ylast, pow2(depth));
    }
}

/// Under [`only_occupied_at`], the whole scan's face count is the
/// isolated cell's count once the scan has passed it.
proof fn lemma_count_slab_single(
    vol: VloxData,
    reg: Map<MaterialId, Material>,
    depth: nat,
    x0: nat,
    y0: nat,
    z0: nat,
    xc: nat,
)
    requires
        only_occupied_at(vol, reg, depth, x0, y0, z0),
        xc <= pow2(depth),
    ensures
        slab_faces(vol, reg, depth, xc).len() == if x0 < xc {
            cell_faces(vol, reg, depth, x0, y0, z0).len()
        } else {
            0
        },
    decreases xc,
{
    if xc > 0 {
        let xlast = (xc - 1) as nat;
        lemma_count_slab_single(vol, reg, depth, x0, y0, z0, xlast);
        lemma_count_plane_single(vol, reg, depth, x0, y0, z0, xlast, pow2(depth));
    }
}

/// A volume with exactly one occupied voxel meshes to exactly 6 faces:
/// 24 vertices, 24 normals, 24 colors, and 36 indices (12 triangles).
pub proof fn lemma_single_voxel_mesh(
    vol: VloxData,
    reg: Map<MaterialId, Material>,
    depth: nat,
    x0: nat,
    y0: nat,
    z0: nat,
    mesh: VloxMesh,
)
    requires
        only_occupied_at(vol, reg, depth, x0, y0, z0),
        buffers_match(
            mesh.positions@,
            mesh.normals@,
            mesh.colors@,
            mesh.indices@,
            mesh_faces(vol, reg, depth),
        ),
    ensures
        mesh_faces(vol, reg, depth).len() == 6,
        mesh.positions@.len() == 24,
        mesh.normals@.len() == 24,
        mesh.colors@.len() == 24,
        mesh.indices@.len() == 36,
{
    lemma_isolated_cell_faces_six(vol, reg, depth, x0, y0, z0);
    lemma_count_slab_single(vol, reg, depth, x0, y0, z0, pow2(depth));
}

/// Exactly two voxels of the sampled grid are occupied: `(x0, y0, z0)`
/// and its face-adjacent neighbor one step along a single axis (the unit
/// offset `(dx, dy, dz)`), and both hold the same material id.
pub open spec fn only_occupied_pair(
    vol: VloxData,
    reg: Map<MaterialId, Material>,
    depth: nat,
    x0: nat,
    y0: nat,
    z0: nat,
    dx: nat,
    dy: nat,
    dz: nat,
) -> bool {
    &&& dx + dy + dz == 1
    &&& x0 + dx < pow2(depth)
    &&& y0 + dy < pow2(depth)
    &&& z0 + dz < pow2(depth)
    &&& occupied(vol, reg, depth, x0, y0, z0)
    &&& occupied(vol, reg, depth, x0 + dx, y0 + dy, z0 + dz)
    &&& vol.value_at(x0, y0, z0, depth) == vol.value_at(x0 + dx, y0 + dy, z0 + dz, depth)
    &&& forall|x: nat, y: nat, z: nat|
        x < pow2(depth) && y < pow2(depth) && z < pow2(depth) && !(x == x0 && y == y0 && z == z0)
            && !(x == x0 + dx && y == y0 + dy && z == z0 + dz) ==> !(#[trigger] occupied(
            vol,
            reg,
            depth,
            x,
            y,
            z,
        ))
}

/// In an isolated face-adjacent pair, each voxel has five exposed faces:
/// the face it shares with its neighbor is culled on both sides.
proof fn lemma_pair_cell_faces_five(
    vol: VloxData,
    reg: Map<MaterialId, Material>,
    depth: nat,
    x0: nat,
    y0: nat,
    z0: nat,
    dx: nat,
    dy: nat,
    dz: nat,
)
    requires
        only_occupied_pair(vol, reg, depth, x0, y0, z0, dx, dy, dz),
    ensures
        cell_faces(vol, reg, depth, x0, y0, z0).len() == 5,
        cell_faces(vol, reg, depth, x0 + dx, y0 + dy, z0 + dz).len() == 5,
{
    let b = pow2(depth);
    let x1 = x0 + dx;
    let y1 = y0 + dy;
    let z1 = z0 + dz;
    assert forall|f: Face| true implies #[trigger] face_exposed(vol, reg, depth, x0, y0, z0, f)
        == !(f == octant_toward(dx, dy, dz)) by {
        lemma_pair_exposure_first(vol, reg, depth, x0, y0, z0, dx, dy, dz, f);
    }
    assert forall|f: Face| true implies #[trigger] face_exposed(vol, reg, depth, x1, y1, z1, f)
        == !(f == octant_away(dx, dy, dz)) by {
        lemma_pair_exposure_second(vol, reg, depth, x0, y0, z0, dx, dy, dz, f);
    }
}

/// The face direction from the first voxel of a pair toward the second.
spec fn octant_toward(dx: nat, dy: nat, dz: nat) -> Face {
    if dx == 1 {
        Face::XPos
    } else if dy == 1 {
        Face::YPos
    } else {
        Face::ZPos
    }
}

/// The face direction from the second voxel of a pair back toward the
/// first.
spec fn octant_away(dx: nat, dy: nat, dz: nat) -> Face {
    if dx == 1 {
        Face::XNeg
    } else if dy == 1 {
        Face::YNeg
    } else {
        Face::ZNeg
    }
}

/// Exposure of each face of the first voxel of an isolated pair.
proof fn lemma_pair_exposure_first(
    vol: VloxData,
    reg: Map<MaterialId, Material>,
    depth: nat,
    x0: nat,
    y0: nat,
    z0: nat,
    dx: nat,
    dy: nat,
    dz: nat,
    f: Face,
)
    requires
        only_occupied_pair(vol, reg, depth, x0, y0, z0, dx, dy, dz),
    ensures
        face_exposed(vol, reg, depth, x0, y0, z0, f) == !(f == octant_toward(dx, dy, dz)),
{
    let b = pow2(depth);
    let x1 = x0 + dx;
    let y1 = y0 + dy;
    let z1 = z0 + dz;
    match f {
        Face::XNeg => {
            if x0 > 0 {
                assert(!occupied(vol, reg, depth, (x0 - 1) as nat, y0, z0));
            }
        },
        Face::XPos => {
            if dx == 1 {
                assert(x0 + 1 != b);
                assert(occupied(vol, reg, depth, x0 + 1, y0, z0));
            } else if x0 + 1 != b {
                assert(!occupied(vol, reg, depth, x0 + 1, y0, z0));
            }
        },
        Face::YNeg => {
            if y0 > 0 {
                assert(!occupied(vol, reg, depth, x0, (y0 - 1) as nat, z0));
            }
        },
        Face::YPos => {
            if dy == 1 {
                assert(y0 + 1 != b);
                assert(occupied(vol, reg, depth, x0, y0 + 1, z0));
            } else if y0 + 1 != b {
                assert(!occupied(vol, reg, depth, x0, y0 + 1, z0));
            }
        },
        Face::ZNeg => {
            if z0 > 0 {
                assert(!occupied(vol, reg, depth, x0, y0, (z0 - 1) as nat));
            }
        },
        Face::ZPos => {
            if dz == 1 {
                assert(z0 + 1 != b);
                assert(occupied(vol, reg, depth, x0, y0, z0 + 1));
            } else if z0 + 1 != b {
                assert(!occupied(vol, reg, depth, x0, y0, z0 + 1));
            }
        },
    }
}

/// Exposure of each face of the second voxel of an isolated pair.
proof fn lemma_pair_exposure_second(
    vol: VloxData,
    reg: Map<MaterialId, Material>,
    depth: nat,
    x0: nat,
    y0: nat,
    z0: nat,
    dx: nat,
    dy: nat,
    dz: nat,
    f: Face,
)
    requires
        only_occupied_pair(vol, reg, depth, x0, y0, z0, dx, dy, dz),
    ensures
        face_exposed(vol, reg, depth, x0 + dx, y0 + dy, z0 + dz, f) == !(f == octant_away(
            dx,
            dy,
            dz,
        )),
{
    let b = pow2(depth);
    let x1 = x0 + dx;
    let y1 = y0 + dy;
    let z1 = z0 + dz;
    match f {
        Face::XNeg => {
            if dx == 1 {
                assert(x1 > 0);
                assert(occupied(vol, reg, depth, (x1 - 1) as nat, y1, z1));
            } else if x1 > 0 {
                assert(!occupied(vol, reg, depth, (x1 - 1) as nat, y1, z1));
            }
        },
        Face::XPos => {
            if x1 + 1 != b {
                assert(!occupied(vol, reg, depth, x1 + 1, y1, z1));
            }
        },
        Face::YNeg => {
            if dy == 1 {
                assert(y1 > 0);
                assert(occupied(vol, reg, depth, x1, (y1 - 1) as nat, z1));
            } else if y1 > 0 {
                assert(!occupied(vol, reg, depth, x1, (y1 - 1) as nat, z1));
            }
        },
        Face::YPos => {
            if y1 + 1 != b {
                assert(!occupied(vol, reg, depth, x1, y1 + 1, z1));
            }
        },
        Face::ZNeg => {
            if dz == 1 {
                assert(z1 > 0);
                assert(occupied(vol, reg, depth, x1, y1, (z1 - 1) as nat));
            } else if z1 > 0 {
                assert(!occupied(vol, reg, depth, x1, y1, (z1 - 1) as nat));
            }
        },
        Face::ZPos => {
            if z1 + 1 != b {
                assert(!occupied(vol, reg, depth, x1, y1, z1 + 1));
            }
        },
    }
}

/// Under [`only_occupied_pair`], a row's face count sums the pair cells
/// the row has passed.
proof fn lemma_count_row_pair(
    vol: VloxData,
    reg: Map<MaterialId, Material>,
    depth: nat,
    x0: nat,
    y0: nat,
    z0: nat,
    dx: nat,
    dy: nat,
    dz: nat,
    x: nat,
    y: nat,
    zc: nat,
)
    requires
        only_occupied_pair(vol, reg, depth, x0, y0, z0, dx, dy, dz),
        x < pow2(depth),
        y < pow2(depth),
        zc <= pow2(depth),
    ensures
        row_faces(vol, reg, depth, x, y, zc).len() == (if x == x0 && y == y0 && z0 < zc {
            cell_faces(vol, reg, depth, x0, y0, z0).len()
        } else {
            0
        }) + (if x == x0 + dx && y == y0 + dy && z0 + dz < zc {
            cell_faces(vol, reg, depth, x0 + dx, y0 + dy, z0 + dz).len()
        } else {
            0
        }),
    decreases zc,
{
    if zc > 0 {
        let zlast = (zc - 1) as nat;
        lemma_count_row_pair(vol, reg, depth, x0, y0, z0, dx, dy, dz, x, y, zlast);
        if !(x == x0 && y == y0 && zlast == z0) && !(x == x0 + dx && y == y0 + dy && zlast == z0
            + dz) {
            assert(!occupied(vol, reg, depth, x, y, zlast));
            assert(cell_faces(vol, reg, depth, x, y, zlast) =~= Seq::<MeshFace>::empty());
        }
    }
}

/// Under [`only_occupied_pair`], a plane's face count sums the pair
/// cells the plane contains.
proof fn lemma_count_plane_pair(
    vol: VloxData,
    reg: Map<MaterialId, Material>,
    depth: nat,
    x0: nat,
    y0: nat,
    z0: nat,
    dx: nat,
    dy: nat,
    dz: nat,
    x: nat,
    yc: nat,
)
    requires
        only_occupied_pair(vol, reg, depth, x0, y0, z0, dx, dy, dz),
        x < pow2(depth),
        yc <= pow2(depth),
    ensures
        plane_faces(vol, reg, depth, x, yc).len() == (if x == x0 && y0 < yc {
            cell_faces(vol, reg, depth, x0, y0, z0).len()
        } else {
            0
        }) + (if x == x0 + dx && y0 + dy < yc {
            cell_faces(vol, reg, depth, x0 + dx, y0 + dy, z0 + dz).len()
        } else {
            0
        }),
    decreases yc,
{
    if yc > 0 {
        let ylast = (yc - 1) as nat;
        lemma_count_plane_pair(vol, reg, depth, x0, y0, z0, dx, dy, dz, x, ylast);
        lemma_count_row_pair(vol, reg, depth, x0, y0, z0, dx, dy, dz, x, ylast, pow2(depth));
    }
}

/// Under [`only_occupied_pair`], the whole scan's face count sums the
/// pair cells the scan has passed.
proof fn lemma_count_slab_pair(
    vol: VloxData,
    reg: Map<MaterialId, Material>,
    depth: nat,
    x0: nat,
    y0: nat,
    z0: nat,
    dx: nat,
    dy: nat,
    dz: nat,
    xc: nat,
)
    requires
        only_occupied_pair(vol, reg, depth, x0, y0, z0, dx, dy, dz),
        xc <= pow2(depth),
    ensures
        slab_faces(vol, reg, depth, xc).len() == (if x0 < xc {
            cell_faces(vol, reg, depth, x0, y0, z0).len()
        } else {
            0
        }) + (if x0 + dx < xc {
            cell_faces(vol, reg, depth, x0 + dx, y0 + dy, z0 + dz).len()
        } else {
            0
        }),
    decreases xc,
{
    if xc > 0 {
        let xlast = (xc - 1) as nat;
        lemma_count_slab_pair(vol, reg, depth, x0, y0, z0, dx, dy, dz, xlast);
        lemma_count_plane_pair(vol, reg, depth, x0, y0, z0, dx, dy, dz, xlast, pow2(depth));
    }
}

/// Two face-adjacent occupied voxels of the same material mesh to
/// exactly 10 faces, not 12: the shared face is culled on both sides.
/// The buffers then hold 40 vertices, 40 normals, 40 colors and 60
/// indices (20 triangles).
pub proof fn lemma_adjacent_pair_mesh(
    vol: VloxData,
    reg: Map<MaterialId, Material>,
    depth: nat,
    x0: nat,
    y0: nat,
    z0: nat,
    dx: nat,
    dy: nat,
    dz: nat,
    mesh: VloxMesh,
)
    requires
        only_occupied_pair(vol, reg, depth, x0, y0, z0, dx, dy, dz),
        buffers_match(
            mesh.positions@,
            mesh.normals@,
            mesh.colors@,
            mesh.indices@,
            mesh_faces(vol, reg, depth),
        ),
    ensures
        mesh_faces(vol, reg, depth).len() == 10,
        mesh.positions@.len() == 40,
        mesh.normals@.len() == 40,
        mesh.colors@.len() == 40,
        mesh.indices@.len() == 60,
{
    lemma_pair_cell_faces_five(vol, reg, depth, x0, y0, z0, dx, dy, dz);
    lemma_count_slab_pair(vol, reg, depth, x0, y0, z0, dx, dy, dz, pow2(depth));
}

} // verus!
