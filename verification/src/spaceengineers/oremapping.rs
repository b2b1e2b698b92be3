//! Ore mappings as the definition files give them.

use vstd::prelude::*;

verus! {

/// The ores of a planet.
#[derive(Debug, PartialEq)]
pub struct OreMappings {
    pub ores: Option<Vec<Ore>>,
}

/// One ore: the value that marks it in the material map, its type, where
/// it starts and how deep it reaches, and the colour it tints the ground
/// with.
#[derive(Debug, PartialEq)]
pub struct Ore {
    pub value: Option<u32>,
    pub ore_type: Option<String>,
    pub start: Option<u32>,
    pub depth: Option<u32>,
    pub target_color: Option<String>,
    pub color_influence: Option<u32>,
}

} // verus!
