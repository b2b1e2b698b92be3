//! What the classification pass computes for one pixel.
//!
//! A pixel of the material map names a material. If an ore carries that
//! identifier, the pixel takes the colour of the ore. Otherwise the rules
//! of the complex material with that identifier are tried in table order
//! and the first whose ranges admit the pixel's height, latitude and
//! slope gives the colour. Otherwise the simple material with that
//! identifier does, and where there is none either, the default material.

use vstd::prelude::*;
use crate::gpu_table::{
    complex_records,
    flat_record,
    or_placeholder,
    ore_records,
    rule_record,
    rules_records,
    simple_records,
    GpuMaterialRule,
    GpuOreMap,
    OreColors,
};
use crate::material::{MaterialRule, PlanetMaterial};
use crate::scalar::{Scalar, ONE_BITS, ZERO_BITS};

verus! {

/// The four tables of one planet as the device reads them.
#[derive(Debug, PartialEq)]
pub struct MaterialTables {
    pub default_materials: Vec<GpuMaterialRule>,
    pub simple_materials: Vec<GpuMaterialRule>,
    pub complex_materials: Vec<GpuMaterialRule>,
    pub ores: Vec<GpuOreMap>,
}

impl MaterialTables {
    /// Whether these are the tables of `materials`, with ore colours taken
    /// from `colors`.
    pub open spec fn built_from(&self, materials: PlanetMaterial, colors: OreColors) -> bool {
        &&& self.default_materials@ == seq![flat_record(0, materials.default_material)]
        &&& self.simple_materials@ == or_placeholder(
            simple_records(materials.simple_materials.entries@),
            Scalar { bits: ONE_BITS },
        )
        &&& self.complex_materials@ == or_placeholder(
            complex_records(materials.complex_materials.entries@),
            Scalar { bits: ZERO_BITS },
        )
        &&& self.ores@ == ore_records(materials.ores.entries@, colors)
    }

    /// Whether ore `i` is the first that carries the identifier.
    pub open spec fn first_ore_at(&self, id: u32, i: int) -> bool {
        &&& 0 <= i < self.ores@.len()
        &&& self.ores@[i].id == id
        &&& forall|j: int| 0 <= j < i ==> self.ores@[j].id != id
    }

    /// Whether some ore carries the identifier.
    pub open spec fn has_ore(&self, id: u32) -> bool {
        exists|i: int| 0 <= i < self.ores@.len() && self.ores@[i].id == id
    }

    /// Whether record `i` of the complex table applies: it carries the
    /// identifier and its ranges admit the point.
    pub open spec fn rule_applies(
        &self,
        id: u32,
        height: Scalar,
        latitude: Scalar,
        slope: Scalar,
        i: int,
    ) -> bool {
        &&& 0 <= i < self.complex_materials@.len()
        &&& self.complex_materials@[i].id == id
        &&& self.complex_materials@[i].admits(height, latitude, slope)
    }

    /// Whether record `i` of the complex table is the first that applies.
    pub open spec fn first_rule_at(
        &self,
        id: u32,
        height: Scalar,
        latitude: Scalar,
        slope: Scalar,
        i: int,
    ) -> bool {
        &&& self.rule_applies(id, height, latitude, slope, i)
        &&& forall|j: int| 0 <= j < i ==> !self.rule_applies(id, height, latitude, slope, j)
    }

    /// Whether some record of the complex table applies.
    pub open spec fn has_rule(&self, id: u32, height: Scalar, latitude: Scalar, slope: Scalar) -> bool {
        exists|i: int| self.rule_applies(id, height, latitude, slope, i)
    }

    /// Whether record `i` of the simple table is the first that carries
    /// the identifier.
    pub open spec fn first_simple_at(&self, id: u32, i: int) -> bool {
        &&& 0 <= i < self.simple_materials@.len()
        &&& self.simple_materials@[i].id == id
        &&& forall|j: int| 0 <= j < i ==> self.simple_materials@[j].id != id
    }

    /// Whether some record of the simple table carries the identifier.
    pub open spec fn has_simple(&self, id: u32) -> bool {
        exists|i: int| 0 <= i < self.simple_materials@.len() && self.simple_materials@[i].id == id
    }

    /// Whether `color` is what the pixel takes.
    pub open spec fn classified(
        &self,
        id: u32,
        height: Scalar,
        latitude: Scalar,
        slope: Scalar,
        color: (u8, u8, u8, u8),
    ) -> bool {
        if self.has_ore(id) {
            exists|i: int| self.first_ore_at(id, i) && color == self.ores@[i].color()
        } else if self.has_rule(id, height, latitude, slope) {
            exists|i: int|
                self.first_rule_at(id, height, latitude, slope, i) && color
                    == self.complex_materials@[i].color()
        } else if self.has_simple(id) {
            exists|i: int| self.first_simple_at(id, i) && color == self.simple_materials@[i].color()
        } else {
            color == self.default_materials@[0].color()
        }
    }

    /// The tables of `materials`.
    pub fn from_materials(materials: &PlanetMaterial, colors: &OreColors) -> (tables: MaterialTables)
        requires
            materials.gpu_ready(*colors),
        ensures
            tables.built_from(*materials, *colors),
    {
        MaterialTables {
            default_materials: materials.default_material_to_gpu(),
            simple_materials: materials.simple_materials_to_gpu(),
            complex_materials: materials.complex_materials_to_gpu(),
            ores: materials.ore_map_to_gpu(colors),
        }
    }

    fn find_ore(&self, id: u32) -> (found: Option<usize>)
        ensures
            found is Some <==> self.has_ore(id),
            found matches Some(i) ==> self.first_ore_at(id, i as int),
    {
        let mut i: usize = 0;
        while i < self.ores.len()
            invariant
                i <= self.ores@.len(),
                forall|j: int| 0 <= j < i ==> self.ores@[j].id != id,
            decreases self.ores@.len() - i,
        {
            if self.ores[i].id == id {
                return Some(i);
            }
            i = i + 1;
        }
        None
    }

    fn find_rule(&self, id: u32, height: Scalar, latitude: Scalar, slope: Scalar) -> (found: Option<
        usize,
    >)
        ensures
            found is Some <==> self.has_rule(id, height, latitude, slope),
            found matches Some(i) ==> self.first_rule_at(id, height, latitude, slope, i as int),
    {
        let mut i: usize = 0;
        while i < self.complex_materials.len()
            invariant
                i <= self.complex_materials@.len(),
                forall|j: int| 0 <= j < i ==> !self.rule_applies(id, height, latitude, slope, j),
            decreases self.complex_materials@.len() - i,
        {
            let record = &self.complex_materials[i];
            if record.id == id && record.admits_point(height, latitude, slope) {
                assert(self.rule_applies(id, height, latitude, slope, i as int));
                return Some(i);
            }
            i = i + 1;
        }
        None
    }

    fn find_simple(&self, id: u32) -> (found: Option<usize>)
        ensures
            found is Some <==> self.has_simple(id),
            found matches Some(i) ==> self.first_simple_at(id, i as int),
    {
        let mut i: usize = 0;
        while i < self.simple_materials.len()
            invariant
                i <= self.simple_materials@.len(),
                forall|j: int| 0 <= j < i ==> self.simple_materials@[j].id != id,
            decreases self.simple_materials@.len() - i,
        {
            if self.simple_materials[i].id == id {
                return Some(i);
            }
            i = i + 1;
        }
        None
    }

    /// The colour of a pixel whose material map names `id` and which lies
    /// at the given height, latitude and slope.
    pub fn classify(&self, id: u32, height: Scalar, latitude: Scalar, slope: Scalar) -> (color: (
        u8,
        u8,
        u8,
        u8,
    ))
        requires
            self.default_materials@.len() > 0,
        ensures
            self.classified(id, height, latitude, slope, color),
    {
        if let Some(i) = self.find_ore(id) {
            let ore = &self.ores[i];
            return (ore.r, ore.g, ore.b, ore.a);
        }
        if let Some(i) = self.find_rule(id, height, latitude, slope) {
            let rule = &self.complex_materials[i];
            return (rule.r, rule.g, rule.b, rule.a);
        }
        if let Some(i) = self.find_simple(id) {
            let simple = &self.simple_materials[i];
            return (simple.r, simple.g, simple.b, simple.a);
        }
        let fallback = &self.default_materials[0];
        (fallback.r, fallback.g, fallback.b, fallback.a)
    }
}

/// The colour of a pixel is determined: two colours that both answer to
/// [`MaterialTables::classified`] are the same.
pub proof fn lemma_classification_unique(
    tables: MaterialTables,
    id: u32,
    height: Scalar,
    latitude: Scalar,
    slope: Scalar,
    first: (u8, u8, u8, u8),
    second: (u8, u8, u8, u8),
)
    requires
        tables.classified(id, height, latitude, slope, first),
        tables.classified(id, height, latitude, slope, second),
    ensures
        first == second,
{
    if tables.has_ore(id) {
        let i = choose|i: int| tables.first_ore_at(id, i) && first == tables.ores@[i].color();
        let j = choose|j: int| tables.first_ore_at(id, j) && second == tables.ores@[j].color();
        if i < j {
            assert(tables.ores@[i].id != id);
        }
        if j < i {
            assert(tables.ores@[j].id != id);
        }
    } else if tables.has_rule(id, height, latitude, slope) {
        let i = choose|i: int|
            tables.first_rule_at(id, height, latitude, slope, i) && first
                == tables.complex_materials@[i].color();
        let j = choose|j: int|
            tables.first_rule_at(id, height, latitude, slope, j) && second
                == tables.complex_materials@[j].color();
        if i < j {
            assert(!tables.rule_applies(id, height, latitude, slope, i));
        }
        if j < i {
            assert(!tables.rule_applies(id, height, latitude, slope, j));
        }
    } else if tables.has_simple(id) {
        let i = choose|i: int|
            tables.first_simple_at(id, i) && first == tables.simple_materials@[i].color();
        let j = choose|j: int|
            tables.first_simple_at(id, j) && second == tables.simple_materials@[j].color();
        if i < j {
            assert(tables.simple_materials@[i].id != id);
        }
        if j < i {
            assert(tables.simple_materials@[j].id != id);
        }
    }
}

/// The record of a rule admits a point exactly when the rule matches it,
/// and shows the colour of the rule's first layer: the device decides as
/// the host does.
pub proof fn lemma_record_mirrors_rule(
    id: u32,
    rule: MaterialRule,
    height: Scalar,
    latitude: Scalar,
    slope: Scalar,
)
    requires
        rule.layers@.len() > 0,
    ensures
        rule_record(id, rule).admits(height, latitude, slope) == rule.spec_matches(
            height,
            latitude,
            slope,
        ),
        rule.first_layer_color() == Some(
            (rule_record(id, rule).r, rule_record(id, rule).g, rule_record(id, rule).b),
        ),
        rule_record(id, rule).id == id,
        rule_record(id, rule).a == 255,
{
}

/// The records of a material's rules stand in the order of the rules.
pub proof fn lemma_records_keep_order(rules: Seq<MaterialRule>, id: u32, j: int)
    requires
        0 <= j < rules.len(),
    ensures
        rules_records(rules, id).len() == rules.len(),
        rules_records(rules, id)[j] == rule_record(id, rules[j]),
{
}

} // verus!
