//! The material registry: a mapping from small integer ids to
//! color-producing material descriptors.
//!
//! A material is void (no surface, a face against it is always exposed),
//! a flat-colored solid, or a custom descriptor whose external resolver is
//! out of scope and which therefore resolves like void. A solid material
//! carries an auxiliary sub-volume used as a per-material palette index;
//! with the default depth-0 sub-volume it always resolves index 0, a
//! single flat color.

use std::collections::HashMap;

use vstd::prelude::*;

use crate::volume::VloxData;
use crate::{MaterialId, VloxError};

verus! {

/// An RGBA color. Each channel holds the IEEE 754 bit pattern of a
/// single-precision value, conventionally in `[0, 1]`; the library never
/// interprets the bits, it only stores and compares them.
#[derive(Clone, Copy, Debug, PartialEq, Eq, Structural)]
pub struct Color {
    pub r: u32,
    pub g: u32,
    pub b: u32,
    pub a: u32,
}

impl Color {
    /// A color from four channel bit patterns.
    pub fn new(r: u32, g: u32, b: u32, a: u32) -> (c: Color)
        ensures
            c == (Color { r, g, b, a }),
    {
        Color { r, g, b, a }
    }

    /// The four channel bit patterns, in `r, g, b, a` order.
    pub fn as_bits(&self) -> (bits: [u32; 4])
        ensures
            bits@ == seq![self.r, self.g, self.b, self.a],
    {
        let bits = [self.r, self.g, self.b, self.a];
        proof {
            assert(bits@ =~= seq![self.r, self.g, self.b, self.a]);
        }
        bits
    }
}

/// What a voxel's material resolves to: no surface at all, or a solid
/// color.
#[derive(Clone, Copy, Debug, PartialEq, Eq, Structural)]
pub enum VloxColor {
    Void,
    Solid(Color),
}

/// A material descriptor.
pub enum Material {
    /// Empty space: no surface, a face against it is always exposed.
    Void,
    /// A solid with a flat color palette.
    Solid(SolidMaterial),
    /// Deferred to an external resolver; out of scope here, so it
    /// resolves like void.
    Custom(CustomMaterial),
}

/// A solid material: a palette of colors indexed through an auxiliary
/// sub-volume.
pub struct SolidMaterial {
    pub name: String,
    pub data: VloxData,
    pub colors: Vec<Color>,
}

/// A material resolved by external code; carries the resolver's bytes.
pub struct CustomMaterial {
    pub name: String,
    pub wasm: Vec<u8>,
}

/// What resolving material `id` at the sub-volume coordinate
/// `(vx, vy, vz, depth)` yields.
///
/// An id absent from the registry is reported as [`VloxError::UnknownMaterial`],
/// as is a solid material whose palette lacks the resolved index; a
/// sub-volume coordinate that addresses no voxel is reported through the
/// sub-volume's own lookup errors.
pub open spec fn resolve_color(
    reg: Map<MaterialId, Material>,
    id: MaterialId,
    vx: nat,
    vy: nat,
    vz: nat,
    depth: nat,
) -> Result<VloxColor, VloxError> {
    if !reg.contains_key(id) {
        Err(VloxError::UnknownMaterial)
    } else {
        match reg[id] {
            Material::Void => Ok(VloxColor::Void),
            Material::Solid(m) => match m.data.lookup(vx, vy, vz, depth) {
                Err(e) => Err(e),
                Ok(ci) => if ci < m.colors@.len() {
                    Ok(VloxColor::Solid(m.colors@[ci as int]))
                } else {
                    Err(VloxError::UnknownMaterial)
                },
            },
            Material::Custom(_) => Ok(VloxColor::Void),
        }
    }
}

/// The flat color that material `id` shows at the root of its palette
/// sub-volume, if it resolves to a solid color at all. This is the
/// resolution the mesh extractor samples: anything that does not resolve
/// to a solid color — void, custom, an unknown id, a palette gap — is
/// treated as void.
pub open spec fn solid_color_of(reg: Map<MaterialId, Material>, id: MaterialId) -> Option<Color> {
    match resolve_color(reg, id, 0, 0, 0, 0) {
        Ok(VloxColor::Solid(c)) => Some(c),
        _ => None,
    }
}

/// The material registry.
pub struct MaterialMap {
    map: HashMap<MaterialId, Material>,
}

impl View for MaterialMap {
    type V = Map<MaterialId, Material>;

    closed spec fn view(&self) -> Map<MaterialId, Material> {
        self.map@
    }
}

impl MaterialMap {
    /// An empty registry.
    pub fn new() -> (m: MaterialMap)
        ensures
            m@ == Map::<MaterialId, Material>::empty(),
    {
        MaterialMap { map: HashMap::new() }
    }

    /// The material registered under `id`, if any.
    pub fn get(&self, id: MaterialId) -> (r: Option<&Material>)
        ensures
            match r {
                Some(m) => self@.contains_key(id) && *m == self@[id],
                None => !self@.contains_key(id),
            },
    {
        self.map.get(&id)
    }

    /// Registers `material` under `id`, replacing what was there.
    pub fn set(&mut self, id: MaterialId, material: Material)
        ensures
            final(self)@ == old(self)@.insert(id, material),
    {
        self.map.insert(id, material);
    }

    /// Resolves material `id` at the sub-volume coordinate
    /// `(vx, vy, vz, depth)` to a color, or reports why it cannot.
    pub fn color(&self, id: MaterialId, vx: u128, vy: u128, vz: u128, depth: u8) -> (r: Result<
        VloxColor,
        VloxError,
    >)
        ensures
            r == resolve_color(self@, id, vx as nat, vy as nat, vz as nat, depth as nat),
    {
        match self.map.get(&id) {
            None => Err(VloxError::UnknownMaterial),
            Some(material) => match material {
                Material::Void => Ok(VloxColor::Void),
                Material::Solid(m) => match m.data.get(vx, vy, vz, depth) {
                    Err(e) => Err(e),
                    Ok(ci) => {
                        if (ci as usize) < m.colors.len() {
                            Ok(VloxColor::Solid(m.colors[ci as usize]))
                        } else {
                            Err(VloxError::UnknownMaterial)
                        }
                    },
                },
                Material::Custom(_) => Ok(VloxColor::Void),
            },
        }
    }

    /// The flat root-palette color of material `id`, or `None` where the
    /// id does not resolve to a solid color.
    pub fn solid_color(&self, id: MaterialId) -> (r: Option<Color>)
        ensures
            r == solid_color_of(self@, id),
    {
        match self.color(id, 0, 0, 0, 0) {
            Ok(VloxColor::Solid(c)) => Some(c),
            _ => None,
        }
    }
}

impl Default for MaterialMap {
    /// An empty registry.
    fn default() -> (m: MaterialMap)
        ensures
            m@ == Map::<MaterialId, Material>::empty(),
    {
        MaterialMap::new()
    }
}

} // verus!
