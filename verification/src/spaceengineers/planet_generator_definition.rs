//! The parts of a planet generator definition that are switches and
//! depths.

use vstd::prelude::*;

verus! {

/// Which maps a planet comes with.
#[derive(Debug, PartialEq)]
pub struct PlanetMaps {
    pub material: bool,
    pub ores: bool,
    pub biome: bool,
    pub occlusion: bool,
}

/// The range of the greatest depth of materials.
#[derive(Debug, PartialEq)]
pub struct MaterialsMaxDepth {
    pub min: u32,
    pub max: u32,
}

/// The range of the least depth of materials.
#[derive(Debug, PartialEq)]
pub struct MaterialsMinDepth {
    pub min: u32,
    pub max: u32,
}

} // verus!
