//! Planet materials and the rules that pick one for a surface point.
//!
//! A rule holds an inclusive range for each of height, latitude and slope.
//! A query value equal to minus 999 marks its axis as unset, and an unset
//! axis admits every range. Rules are tried in the order in which they are
//! stored; the first one that matches wins.

use vstd::prelude::*;
use crate::scalar::{Scalar, UNSET_BITS};
use crate::table::NameTable;

verus! {

/// One ore entry of a planet: the value that marks it in the material map
/// and the ore type that gives it its colour.
#[derive(Debug, PartialEq)]
pub struct OreMap {
    pub value: Option<u32>,
    pub ore_type: Option<String>,
    pub start: Option<u32>,
    pub depth: Option<u32>,
    pub target_color: Option<[u32; 3]>,
    pub color_influence: Option<u32>,
}

/// A colour together with the name of the material it stands for.
#[derive(Debug, PartialEq)]
pub struct MaterialLayer {
    pub r: u8,
    pub g: u8,
    pub b: u8,
    pub material: String,
    pub depth: Option<u8>,
}

/// A list of layers that applies where height, latitude and slope all fall
/// into the rule's ranges.
#[derive(Debug, PartialEq)]
pub struct MaterialRule {
    pub layers: Vec<MaterialLayer>,
    pub min_height: Scalar,
    pub max_height: Scalar,
    pub latitude_min: Scalar,
    pub latitude_max: Scalar,
    pub slope_min: Scalar,
    pub slope_max: Scalar,
}

/// A material whose colour depends on where it lies: an ordered list of
/// rules under one identifier.
#[derive(Debug, PartialEq)]
pub struct VoxelMaterial {
    pub id: i32,
    pub name: String,
    pub rules: Vec<MaterialRule>,
}

/// Everything that colours one planet.
#[derive(Debug, PartialEq)]
pub struct PlanetMaterial {
    pub name: String,
    pub default_material: MaterialLayer,
    pub simple_materials: NameTable<MaterialLayer>,
    pub complex_materials: NameTable<VoxelMaterial>,
    pub ores: NameTable<OreMap>,
    pub base_path: String,
}

/// The materials of every known planet, by planet name.
#[derive(Debug, PartialEq)]
pub struct PlanetMaterials(pub NameTable<PlanetMaterial>);

/// Whether a query value marks its axis as unset.
pub open spec fn is_unset(value: Scalar) -> bool {
    value.equal(Scalar { bits: UNSET_BITS })
}

/// Whether the range `[min, max]` admits a query value: the value is unset,
/// or it is neither below `min` nor above `max`.
pub open spec fn axis_admits(value: Scalar, min: Scalar, max: Scalar) -> bool {
    is_unset(value) || !(value.less(min) || max.less(value))
}

/// The order in which layers are compared by depth: a layer without a depth
/// lies below every layer that has one.
pub open spec fn depth_rank(depth: Option<u8>) -> int {
    match depth {
        None => -1,
        Some(d) => d as int,
    }
}

/// Whether the range `[min, max]` admits a query value.
pub fn range_admits(value: &Scalar, min: &Scalar, max: &Scalar) -> (r: bool)
    ensures
        r == axis_admits(*value, *min, *max),
{
    let unset = Scalar::unset();
    !(value.ne_value(&unset) && (value.lt(min) || value.gt(max)))
}

fn depth_rank_of(depth: &Option<u8>) -> (r: i16)
    ensures
        r == depth_rank(*depth),
{
    match depth {
        None => -1,
        Some(d) => *d as i16,
    }
}

impl PlanetMaterial {
    /// Whether no simple material, no complex material and no ore shares
    /// its name with another of its kind.
    pub open spec fn names_distinct(&self) -> bool {
        &&& self.simple_materials.distinct()
        &&& self.complex_materials.distinct()
        &&& self.ores.distinct()
    }

    /// Whether no simple material, no complex material and no ore shares
    /// its name with another of its kind.
    pub fn has_distinct_names(&self) -> (distinct: bool)
        ensures
            distinct == self.names_distinct(),
    {
        self.simple_materials.is_distinct() && self.complex_materials.is_distinct()
            && self.ores.is_distinct()
    }
}

impl MaterialLayer {
    /// The colour of the layer.
    pub open spec fn color(&self) -> (u8, u8, u8) {
        (self.r, self.g, self.b)
    }
}

impl MaterialRule {
    /// Whether the rule applies at the given height, latitude and slope.
    pub open spec fn spec_matches(&self, height: Scalar, lat: Scalar, slope: Scalar) -> bool {
        &&& axis_admits(height, self.min_height, self.max_height)
        &&& axis_admits(lat, self.latitude_min, self.latitude_max)
        &&& axis_admits(slope, self.slope_min, self.slope_max)
    }

    /// The colour of the first layer.
    pub open spec fn first_layer_color(&self) -> Option<(u8, u8, u8)> {
        if self.layers@.len() > 0 {
            Some(self.layers@[0].color())
        } else {
            None
        }
    }

    /// Whether layer `i` is the first among those of least depth.
    pub open spec fn lowest_at(&self, i: int) -> bool {
        &&& 0 <= i < self.layers@.len()
        &&& forall|j: int|
            0 <= j < self.layers@.len() ==> depth_rank(self.layers@[i].depth) <= depth_rank(
                self.layers@[j].depth,
            )
        &&& forall|j: int|
            0 <= j < i ==> depth_rank(self.layers@[i].depth) < depth_rank(self.layers@[j].depth)
    }

    /// Whether the rule applies at the given height, latitude and slope.
    #[verifier::when_used_as_spec(spec_matches)]
    pub fn matches(&self, height: Scalar, lat: Scalar, slope: Scalar) -> (r: bool)
        ensures
            r == self.spec_matches(height, lat, slope),
    {
        if !range_admits(&height, &self.min_height, &self.max_height) {
            return false;
        }
        if !range_admits(&lat, &self.latitude_min, &self.latitude_max) {
            return false;
        }
        if !range_admits(&slope, &self.slope_min, &self.slope_max) {
            return false;
        }
        true
    }

    /// The colour of the first layer, if the rule has a layer.
    pub fn get_first_layer_color(&self) -> (color: Option<(u8, u8, u8)>)
        ensures
            color == self.first_layer_color(),
    {
        if self.layers.len() > 0 {
            let layer = &self.layers[0];
            return Some((layer.r, layer.g, layer.b));
        }
        None
    }

    /// The colour of the layer of least depth, the earliest one where
    /// several share that depth; `None` for a rule without layers.
    pub fn get_lowest_depth_color(&self) -> (color: Option<(u8, u8, u8)>)
        ensures
            color is None <==> self.layers@.len() == 0,
            color matches Some(c) ==> exists|i: int|
                self.lowest_at(i) && c == self.layers@[i].color(),
    {
        if self.layers.len() == 0 {
            return None;
        }
        let mut lowest: usize = 0;
        let mut k: usize = 1;
        while k < self.layers.len()
            invariant
                1 <= k <= self.layers@.len(),
                lowest < k,
                forall|j: int|
                    0 <= j < k ==> depth_rank(self.layers@[lowest as int].depth) <= depth_rank(
                        self.layers@[j].depth,
                    ),
                forall|j: int|
                    0 <= j < lowest ==> depth_rank(self.layers@[lowest as int].depth)
                        < depth_rank(self.layers@[j].depth),
            decreases self.layers@.len() - k,
        {
            if depth_rank_of(&self.layers[k].depth) < depth_rank_of(&self.layers[lowest].depth) {
                lowest = k;
            }
            k = k + 1;
        }
        let layer = &self.layers[lowest];
        assert(self.lowest_at(lowest as int));
        Some((layer.r, layer.g, layer.b))
    }
}

impl VoxelMaterial {
    /// Whether rule `i` is the first that applies at the given point.
    pub open spec fn first_match_at(
        &self,
        height: Scalar,
        lat: Scalar,
        slope: Scalar,
        i: int,
    ) -> bool {
        &&& 0 <= i < self.rules@.len()
        &&& self.rules@[i].spec_matches(height, lat, slope)
        &&& forall|j: int| 0 <= j < i ==> !self.rules@[j].spec_matches(height, lat, slope)
    }

    /// Whether no rule applies at the given point.
    pub open spec fn no_match(&self, height: Scalar, lat: Scalar, slope: Scalar) -> bool {
        forall|j: int| 0 <= j < self.rules@.len() ==> !self.rules@[j].spec_matches(height, lat, slope)
    }

    /// The index of the first rule that applies at the given point.
    pub fn match_index(&self, height: Scalar, lat: Scalar, slope: Scalar) -> (found: Option<usize>)
        ensures
            match found {
                Some(i) => self.first_match_at(height, lat, slope, i as int),
                None => self.no_match(height, lat, slope),
            },
    {
        let mut i: usize = 0;
        while i < self.rules.len()
            invariant
                i <= self.rules@.len(),
                forall|j: int| 0 <= j < i ==> !self.rules@[j].spec_matches(height, lat, slope),
            decreases self.rules@.len() - i,
        {
            if self.rules[i].matches(height, lat, slope) {
                return Some(i);
            }
            i = i + 1;
        }
        None
    }

    /// The first rule that applies at the given point, with the colour of
    /// its first layer; `(None, None)` where no rule applies.
    pub fn get_layer(&self, height: Scalar, lat: Scalar, slope: Scalar) -> (found: (
        Option<&MaterialRule>,
        Option<(u8, u8, u8)>,
    ))
        ensures
            match found.0 {
                Some(rule) => exists|i: int|
                    self.first_match_at(height, lat, slope, i) && *rule == self.rules@[i]
                        && found.1 == self.rules@[i].first_layer_color(),
                None => self.no_match(height, lat, slope) && found.1 is None,
            },
    {
        match self.match_index(height, lat, slope) {
            Some(i) => {
                let rule = &self.rules[i];
                (Some(rule), rule.get_first_layer_color())
            },
            None => (None, None),
        }
    }
}

/// An unset query value is admitted by every range, whatever its bounds.
pub proof fn lemma_unset_admitted(min: Scalar, max: Scalar)
    ensures
        axis_admits(Scalar { bits: UNSET_BITS }, min, max),
{
}

/// With the latitude unset a rule matches exactly when height and slope are
/// admitted; the rule's latitude bounds play no part. The same holds for
/// an unset height and an unset slope.
pub proof fn lemma_unset_axis_is_wildcard(
    rule: MaterialRule,
    height: Scalar,
    lat: Scalar,
    slope: Scalar,
)
    ensures
        is_unset(lat) ==> rule.spec_matches(height, lat, slope) == (axis_admits(
            height,
            rule.min_height,
            rule.max_height,
        ) && axis_admits(slope, rule.slope_min, rule.slope_max)),
        is_unset(height) ==> rule.spec_matches(height, lat, slope) == (axis_admits(
            lat,
            rule.latitude_min,
            rule.latitude_max,
        ) && axis_admits(slope, rule.slope_min, rule.slope_max)),
        is_unset(slope) ==> rule.spec_matches(height, lat, slope) == (axis_admits(
            height,
            rule.min_height,
            rule.max_height,
        ) && axis_admits(lat, rule.latitude_min, rule.latitude_max)),
{
}

/// A range whose lower bound lies above its upper bound admits no number
/// but the unset mark.
pub proof fn lemma_malformed_range_admits_nothing(value: Scalar, min: Scalar, max: Scalar)
    requires
        max.less(min),
        !value.nan(),
        !is_unset(value),
    ensures
        !axis_admits(value, min, max),
{
}

/// Of two rules that both apply, the one stored first is chosen.
pub proof fn lemma_first_match_wins(
    material: VoxelMaterial,
    height: Scalar,
    lat: Scalar,
    slope: Scalar,
    a: int,
    b: int,
)
    requires
        0 <= a < b < material.rules@.len(),
        material.rules@[a].spec_matches(height, lat, slope),
        material.rules@[b].spec_matches(height, lat, slope),
    ensures
        !material.first_match_at(height, lat, slope, b),
        !material.no_match(height, lat, slope),
        forall|i: int| material.first_match_at(height, lat, slope, i) ==> i <= a,
{
    assert forall|i: int| material.first_match_at(height, lat, slope, i) implies i <= a by {
        if a < i {
            assert(!material.rules@[a].spec_matches(height, lat, slope));
        }
    }
}

} // verus!
