use vlox::material::{Color, Material, MaterialMap, SolidMaterial, VloxColor};
use vlox::volume::VloxData;
use vlox::VloxError;

fn rgba(r: f32, g: f32, b: f32, a: f32) -> Color {
    Color::new(r.to_bits(), g.to_bits(), b.to_bits(), a.to_bits())
}

fn solid(name: &str, colors: Vec<Color>) -> Material {
    Material::Solid(SolidMaterial {
        name: name.to_string(),
        data: VloxData::new(0),
        colors,
    })
}

#[test]
fn color_channels_round_trip() {
    let c = rgba(1.0, 0.25, 0.5, 1.0);
    let bits = c.as_bits();
    assert_eq!(f32::from_bits(bits[0]), 1.0);
    assert_eq!(f32::from_bits(bits[1]), 0.25);
    assert_eq!(f32::from_bits(bits[2]), 0.5);
    assert_eq!(f32::from_bits(bits[3]), 1.0);
}

#[test]
fn registry_set_then_get() {
    let mut materials = MaterialMap::new();
    assert!(materials.get(0).is_none());
    materials.set(0, Material::Void);
    materials.set(1, solid("White", vec![rgba(1.0, 1.0, 1.0, 1.0)]));
    assert!(matches!(materials.get(0), Some(Material::Void)));
    match materials.get(1) {
        Some(Material::Solid(m)) => assert_eq!(m.name, "White"),
        _ => panic!("expected the solid material back"),
    }
    assert!(materials.get(2).is_none());
}

#[test]
fn void_and_custom_resolve_to_no_color() {
    let mut materials = MaterialMap::new();
    materials.set(0, Material::Void);
    materials.set(
        7,
        Material::Custom(vlox::material::CustomMaterial {
            name: "deferred".to_string(),
            wasm: vec![1, 2, 3],
        }),
    );
    assert_eq!(materials.color(0, 0, 0, 0, 0), Ok(VloxColor::Void));
    assert_eq!(materials.color(7, 0, 0, 0, 0), Ok(VloxColor::Void));
}

#[test]
fn solid_resolves_through_its_palette() {
    let white = rgba(1.0, 1.0, 1.0, 1.0);
    let red = rgba(1.0, 0.0, 0.0, 1.0);
    let mut materials = MaterialMap::new();
    // a sub-volume whose root selects palette entry 1
    let mut data = VloxData::new(0);
    data.set(0, 0, 0, 0, 1).unwrap();
    materials.set(
        3,
        Material::Solid(SolidMaterial {
            name: "Two-tone".to_string(),
            data,
            colors: vec![white, red],
        }),
    );
    assert_eq!(materials.color(3, 0, 0, 0, 0), Ok(VloxColor::Solid(red)));
}

#[test]
fn unknown_material_is_reported() {
    let materials = MaterialMap::new();
    assert_eq!(materials.color(9, 0, 0, 0, 0), Err(VloxError::UnknownMaterial));
}

#[test]
fn palette_gap_is_reported_as_unknown() {
    let mut materials = MaterialMap::new();
    materials.set(1, solid("Empty palette", vec![]));
    assert_eq!(materials.color(1, 0, 0, 0, 0), Err(VloxError::UnknownMaterial));
}

#[test]
fn bad_sub_volume_coordinate_is_reported() {
    let mut materials = MaterialMap::new();
    materials.set(1, solid("White", vec![rgba(1.0, 1.0, 1.0, 1.0)]));
    assert_eq!(
        materials.color(1, 1, 0, 0, 0),
        Err(VloxError::CoordinateOutOfRange)
    );
}

#[test]
fn default_registry_is_empty() {
    let materials = MaterialMap::default();
    assert!(materials.get(0).is_none());
    assert_eq!(materials.color(0, 0, 0, 0, 0), Err(VloxError::UnknownMaterial));
}
