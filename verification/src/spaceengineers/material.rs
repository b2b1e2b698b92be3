//! Material layers and textures as the definition files name them.

use vstd::prelude::*;

verus! {

/// One layer of a material rule: a material and the depth it reaches.
#[derive(Debug, PartialEq)]
pub struct Layer {
    pub material: Option<String>,
    pub depth: Option<u32>,
}

/// The texture files of a cloud layer.
#[derive(Debug, PartialEq)]
pub struct Textures {
    pub texture: Option<Vec<String>>,
}

} // verus!
