//! Where surface items grow: biomes, materials and surface defaults.

use vstd::prelude::*;

verus! {

/// A biome by its number.
#[derive(Debug, PartialEq)]
pub struct Biome {
    pub biome: Option<u32>,
}

/// A voxel material by its name.
#[derive(Debug, PartialEq)]
pub struct Material {
    pub material: Option<String>,
}

/// The material of the surface where no rule applies, and how deep it
/// reaches.
#[derive(Debug, PartialEq)]
pub struct DefaultSurfaceMaterial {
    pub material: Option<String>,
    pub max_depth: Option<u32>,
}

/// The material below the surface where no rule applies.
#[derive(Debug, PartialEq)]
pub struct DefaultSubSurfaceMaterial {
    pub material: Option<String>,
}

/// The biomes in which an item grows.
#[derive(Debug, PartialEq)]
pub struct Biomes {
    pub biome: Option<Vec<u32>>,
}

/// The materials on which an item grows.
#[derive(Debug, PartialEq)]
pub struct Materials {
    pub material: Option<Vec<String>>,
}

} // verus!
