use vlox::material::{Color, Material, MaterialMap, SolidMaterial};
use vlox::mesh::{Face, GridVertex};
use vlox::volume::VloxData;

fn rgba(r: f32, g: f32, b: f32, a: f32) -> Color {
    Color::new(r.to_bits(), g.to_bits(), b.to_bits(), a.to_bits())
}

fn demo_materials() -> MaterialMap {
    let mut materials = MaterialMap::new();
    materials.set(0, Material::Void);
    materials.set(
        1,
        Material::Solid(SolidMaterial {
            name: "White".to_string(),
            data: VloxData::new(0),
            colors: vec![rgba(1.0, 1.0, 1.0, 1.0)],
        }),
    );
    materials
}

#[test]
fn empty_volume_yields_empty_mesh() {
    let data = VloxData::new(3);
    let materials = demo_materials();
    let mesh = data.compute_mesh_at_depth(3, &materials);
    assert_eq!(mesh.positions.len(), 0);
    assert_eq!(mesh.normals.len(), 0);
    assert_eq!(mesh.colors.len(), 0);
    assert_eq!(mesh.indices.len(), 0);
}

#[test]
fn isolated_voxel_meshes_to_six_faces() {
    let mut data = VloxData::new(3);
    data.set(1, 1, 1, 2, 1).unwrap();
    let materials = demo_materials();
    let mesh = data.compute_mesh_at_depth(2, &materials);
    // 6 faces: 24 vertices, 12 triangles
    assert_eq!(mesh.positions.len(), 24);
    assert_eq!(mesh.normals.len(), 24);
    assert_eq!(mesh.colors.len(), 24);
    assert_eq!(mesh.indices.len(), 36);
    let white = rgba(1.0, 1.0, 1.0, 1.0);
    assert!(mesh.colors.iter().all(|c| *c == white));
}

#[test]
fn adjacent_pair_meshes_to_ten_faces() {
    let mut data = VloxData::new(3);
    data.set(1, 1, 1, 2, 1).unwrap();
    data.set(2, 1, 1, 2, 1).unwrap();
    let materials = demo_materials();
    let mesh = data.compute_mesh_at_depth(2, &materials);
    // 10 exposed faces, not 12: the shared face is culled on both sides
    assert_eq!(mesh.positions.len(), 40);
    assert_eq!(mesh.indices.len(), 60);
}

#[test]
fn adjacent_pair_along_each_axis() {
    for axis in 0..3 {
        let mut data = VloxData::new(3);
        data.set(1, 1, 1, 2, 1).unwrap();
        let (x, y, z) = match axis {
            0 => (2, 1, 1),
            1 => (1, 2, 1),
            _ => (1, 1, 2),
        };
        data.set(x, y, z, 2, 1).unwrap();
        let materials = demo_materials();
        let mesh = data.compute_mesh_at_depth(2, &materials);
        assert_eq!(mesh.positions.len(), 40);
        assert_eq!(mesh.indices.len(), 60);
    }
}

#[test]
fn differently_colored_neighbors_still_cull_the_shared_face() {
    // culling is driven by occupancy, not by color equality
    let mut materials = demo_materials();
    materials.set(
        2,
        Material::Solid(SolidMaterial {
            name: "Red".to_string(),
            data: VloxData::new(0),
            colors: vec![rgba(1.0, 0.0, 0.0, 1.0)],
        }),
    );
    let mut data = VloxData::new(3);
    data.set(1, 1, 1, 2, 1).unwrap();
    data.set(2, 1, 1, 2, 2).unwrap();
    let mesh = data.compute_mesh_at_depth(2, &materials);
    assert_eq!(mesh.positions.len(), 40);
}

#[test]
fn single_voxel_exact_buffers_at_depth_one() {
    let mut data = VloxData::new(1);
    data.set(0, 0, 0, 1, 1).unwrap();
    let materials = demo_materials();
    let mesh = data.compute_mesh_at_depth(1, &materials);
    assert_eq!(mesh.positions.len(), 24);
    // the first emitted face looks along -x
    assert_eq!(mesh.normals[0], Face::XNeg);
    assert_eq!(mesh.positions[0], GridVertex { x: 0, y: 0, z: 0 });
    assert_eq!(mesh.positions[1], GridVertex { x: 0, y: 0, z: 1 });
    assert_eq!(mesh.positions[2], GridVertex { x: 0, y: 1, z: 1 });
    assert_eq!(mesh.positions[3], GridVertex { x: 0, y: 1, z: 0 });
    assert_eq!(&mesh.indices[0..6], &[0, 1, 2, 2, 3, 0]);
    // the second face looks along +x and winds the other way
    assert_eq!(mesh.normals[4], Face::XPos);
    assert_eq!(mesh.positions[4], GridVertex { x: 1, y: 0, z: 0 });
    assert_eq!(&mesh.indices[6..12], &[4, 7, 6, 6, 5, 4]);
    // face order per voxel is fixed
    assert_eq!(mesh.normals[8], Face::YNeg);
    assert_eq!(mesh.normals[12], Face::YPos);
    assert_eq!(mesh.normals[16], Face::ZNeg);
    assert_eq!(mesh.normals[20], Face::ZPos);
}

#[test]
fn occupancy_follows_material_resolution_not_raw_id() {
    // the raw stored id is nonzero, but its material resolves to void
    let mut materials = MaterialMap::new();
    materials.set(0, Material::Void);
    materials.set(5, Material::Void);
    let mut data = VloxData::new(3);
    data.set(1, 1, 1, 2, 5).unwrap();
    let mesh = data.compute_mesh_at_depth(2, &materials);
    assert_eq!(mesh.positions.len(), 0);
    assert_eq!(mesh.indices.len(), 0);

    // an id absent from the registry is treated as void too
    let mut bare = VloxData::new(3);
    bare.set(1, 1, 1, 2, 9).unwrap();
    let mesh = bare.compute_mesh_at_depth(2, &materials);
    assert_eq!(mesh.positions.len(), 0);
}

#[test]
fn void_neighbor_exposes_the_shared_face() {
    // two adjacent voxels of which one resolves to void: the solid one
    // keeps all six faces
    let mut materials = demo_materials();
    materials.set(5, Material::Void);
    let mut data = VloxData::new(3);
    data.set(1, 1, 1, 2, 1).unwrap();
    data.set(2, 1, 1, 2, 5).unwrap();
    let mesh = data.compute_mesh_at_depth(2, &materials);
    assert_eq!(mesh.positions.len(), 24);
}

#[test]
fn vertices_stay_inside_the_centered_cube() {
    let mut data = VloxData::new(3);
    data.set(0, 0, 0, 2, 1).unwrap();
    data.set(3, 3, 3, 2, 1).unwrap();
    data.set(0, 3, 0, 2, 1).unwrap();
    data.set(2, 1, 3, 2, 1).unwrap();
    let materials = demo_materials();
    let depth: u8 = 2;
    let mesh = data.compute_mesh_at_depth(depth, &materials);
    assert!(!mesh.positions.is_empty());

    // scale to world units and recenter as the renderer does
    let edge: f32 = data.size() as f32;
    let voxel: f32 = edge / (data.num_vlox(depth) as f32);
    let half: f32 = edge / 2.0;
    for p in &mesh.positions {
        for world in [
            p.x as f32 * voxel - half,
            p.y as f32 * voxel - half,
            p.z as f32 * voxel - half,
        ] {
            assert!(-half <= world && world <= half);
        }
    }
}

#[test]
fn boundary_voxel_faces_count_as_exposed() {
    // a voxel in the corner of the grid: all six faces exposed, three of
    // them against the volume boundary
    let mut data = VloxData::new(2);
    data.set(0, 0, 0, 2, 1).unwrap();
    let materials = demo_materials();
    let mesh = data.compute_mesh_at_depth(2, &materials);
    assert_eq!(mesh.positions.len(), 24);
}
