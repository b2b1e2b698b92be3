//! The tables that the classification pass reads on the device.
//!
//! Each table is a list of fixed-size records. A material record takes 64
//! bytes: the identifier in the first four, twelve bytes of padding, the
//! colour as four channels of four bytes each, then the height, latitude
//! and slope ranges as pairs of four-byte values, and eight bytes of
//! padding. An ore record takes 32 bytes: identifier, twelve bytes of
//! padding, colour. Records are laid out in table order, so the first
//! record that applies on the device is the first that applies here.

use vstd::prelude::*;
use crate::decimal::{parse_id, parsed_id};
use crate::material::{
    axis_admits,
    range_admits,
    MaterialLayer,
    MaterialRule,
    OreMap,
    PlanetMaterial,
    VoxelMaterial,
};
use crate::device::{bytes_hold_words, words_to_bytes};
use crate::scalar::{Scalar, ONE_BITS, ZERO_BITS};
use crate::share::{share_of, unorm8};
use crate::table::NameTable;

verus! {

/// Bytes from one material record to the next.
pub const MATERIAL_RULE_STRIDE: usize = 64;

/// Bytes from one ore record to the next.
pub const ORE_MAP_STRIDE: usize = 32;

/// Words of 32 bits in one material record.
pub const MATERIAL_RULE_WORDS: usize = 16;

/// Words of 32 bits in one ore record.
pub const ORE_MAP_WORDS: usize = 8;

/// The identifier of the record that fills an otherwise empty table.
/// Material identifiers stay below 256, so no pixel selects it.
pub const PLACEHOLDER_ID: u32 = 999;

/// One record of a material table.
#[derive(Clone, Copy, Debug, PartialEq, Eq, Structural)]
pub struct GpuMaterialRule {
    pub id: u32,
    pub r: u8,
    pub g: u8,
    pub b: u8,
    pub a: u8,
    pub min_height: Scalar,
    pub max_height: Scalar,
    pub latitude_min: Scalar,
    pub latitude_max: Scalar,
    pub slope_min: Scalar,
    pub slope_max: Scalar,
}

/// One record of the ore table.
#[derive(Clone, Copy, Debug, PartialEq, Eq, Structural)]
pub struct GpuOreMap {
    pub id: u32,
    pub r: u8,
    pub g: u8,
    pub b: u8,
    pub a: u8,
}

/// The colour of every ore type, by ore type name.
pub type OreColors = NameTable<(u8, u8, u8)>;

/// A signed identifier as the unsigned value with the same 32 bits.
pub open spec fn wrapped_id(id: i32) -> u32 {
    if id >= 0 {
        id as u32
    } else {
        (id + 0x1_0000_0000) as u32
    }
}

/// The record of a rule of the complex material `id`: the colour of the
/// rule's first layer, opaque, with the rule's ranges.
pub open spec fn rule_record(id: u32, rule: MaterialRule) -> GpuMaterialRule {
    GpuMaterialRule {
        id,
        r: rule.layers@[0].r,
        g: rule.layers@[0].g,
        b: rule.layers@[0].b,
        a: 255,
        min_height: rule.min_height,
        max_height: rule.max_height,
        latitude_min: rule.latitude_min,
        latitude_max: rule.latitude_max,
        slope_min: rule.slope_min,
        slope_max: rule.slope_max,
    }
}

/// The record of a material without ranges: its colour, opaque, and every
/// bound zero.
pub open spec fn flat_record(id: u32, layer: MaterialLayer) -> GpuMaterialRule {
    GpuMaterialRule {
        id,
        r: layer.r,
        g: layer.g,
        b: layer.b,
        a: 255,
        min_height: Scalar { bits: ZERO_BITS },
        max_height: Scalar { bits: ZERO_BITS },
        latitude_min: Scalar { bits: ZERO_BITS },
        latitude_max: Scalar { bits: ZERO_BITS },
        slope_min: Scalar { bits: ZERO_BITS },
        slope_max: Scalar { bits: ZERO_BITS },
    }
}

/// The record that fills an otherwise empty table: transparent black under
/// the placeholder identifier, both slope bounds as given, the other
/// bounds zero.
pub open spec fn placeholder_record(slope: Scalar) -> GpuMaterialRule {
    GpuMaterialRule {
        id: PLACEHOLDER_ID,
        r: 0,
        g: 0,
        b: 0,
        a: 0,
        min_height: Scalar { bits: ZERO_BITS },
        max_height: Scalar { bits: ZERO_BITS },
        latitude_min: Scalar { bits: ZERO_BITS },
        latitude_max: Scalar { bits: ZERO_BITS },
        slope_min: slope,
        slope_max: slope,
    }
}

/// The records of the rules of one complex material, in rule order.
pub open spec fn rules_records(rules: Seq<MaterialRule>, id: u32) -> Seq<GpuMaterialRule> {
    rules.map_values(|rule: MaterialRule| rule_record(id, rule))
}

/// The records of all complex materials: material by material in table
/// order, each with its rules in rule order.
pub open spec fn complex_records(entries: Seq<(String, VoxelMaterial)>) -> Seq<GpuMaterialRule>
    decreases entries.len(),
{
    if entries.len() == 0 {
        Seq::empty()
    } else {
        complex_records(entries.drop_last()) + rules_records(
            entries.last().1.rules@,
            wrapped_id(entries.last().1.id),
        )
    }
}

/// The record of one simple material, identified by the number that its
/// name denotes.
pub open spec fn simple_record(entry: (String, MaterialLayer)) -> GpuMaterialRule {
    flat_record(parsed_id(entry.0@).unwrap(), entry.1)
}

/// The record of the simple material called `name`: the number that the
/// name denotes, with the colour of the material that the name finds.
pub open spec fn named_record(materials: NameTable<MaterialLayer>, name: Seq<char>) -> GpuMaterialRule {
    flat_record(parsed_id(name).unwrap(), materials.lookup(name).unwrap())
}

/// The records of the simple materials, in table order.
pub open spec fn simple_records(entries: Seq<(String, MaterialLayer)>) -> Seq<GpuMaterialRule> {
    entries.map_values(|entry: (String, MaterialLayer)| simple_record(entry))
}

/// A table as it goes to the device: the records, or the placeholder
/// where there are none, so that no device buffer has length zero.
pub open spec fn or_placeholder(records: Seq<GpuMaterialRule>, slope: Scalar) -> Seq<
    GpuMaterialRule,
> {
    if records.len() == 0 {
        seq![placeholder_record(slope)]
    } else {
        records
    }
}

/// The record of one ore, if its type has a colour.
pub open spec fn ore_record(ore: OreMap, colors: OreColors) -> Seq<GpuOreMap> {
    match colors.lookup(ore.ore_type.unwrap()@) {
        Some(c) => seq![GpuOreMap { id: ore.value.unwrap(), r: c.0, g: c.1, b: c.2, a: 255 }],
        None => Seq::empty(),
    }
}

/// The records of the ores whose type has a colour, in table order.
pub open spec fn ore_records(entries: Seq<(String, OreMap)>, colors: OreColors) -> Seq<GpuOreMap>
    decreases entries.len(),
{
    if entries.len() == 0 {
        Seq::empty()
    } else {
        ore_records(entries.drop_last(), colors) + ore_record(entries.last().1, colors)
    }
}

/// The positions of the ores whose type has no colour, in table order.
pub open spec fn unmapped_ores(entries: Seq<(String, OreMap)>, colors: OreColors) -> Seq<usize>
    decreases entries.len(),
{
    if entries.len() == 0 {
        Seq::empty()
    } else {
        unmapped_ores(entries.drop_last(), colors) + if colors.contains(
            entries.last().1.ore_type.unwrap()@,
        ) {
            Seq::empty()
        } else {
            seq![(entries.len() - 1) as usize]
        }
    }
}

fn wrap_id(id: i32) -> (wrapped: u32)
    ensures
        wrapped == wrapped_id(id),
{
    if id >= 0 {
        id as u32
    } else {
        (id as i64 + 0x1_0000_0000) as u32
    }
}

fn make_flat_record(id: u32, layer: &MaterialLayer) -> (record: GpuMaterialRule)
    ensures
        record == flat_record(id, *layer),
{
    GpuMaterialRule {
        id,
        r: layer.r,
        g: layer.g,
        b: layer.b,
        a: 255,
        min_height: Scalar::zero(),
        max_height: Scalar::zero(),
        latitude_min: Scalar::zero(),
        latitude_max: Scalar::zero(),
        slope_min: Scalar::zero(),
        slope_max: Scalar::zero(),
    }
}

fn make_placeholder(slope: Scalar) -> (record: GpuMaterialRule)
    ensures
        record == placeholder_record(slope),
{
    GpuMaterialRule {
        id: PLACEHOLDER_ID,
        r: 0,
        g: 0,
        b: 0,
        a: 0,
        min_height: Scalar::zero(),
        max_height: Scalar::zero(),
        latitude_min: Scalar::zero(),
        latitude_max: Scalar::zero(),
        slope_min: slope,
        slope_max: slope,
    }
}

fn push_rule_records(rules: &Vec<MaterialRule>, id: u32, out: &mut Vec<GpuMaterialRule>)
    requires
        forall|j: int| 0 <= j < rules@.len() ==> rules@[j].layers@.len() > 0,
    ensures
        final(out)@ == old(out)@ + rules_records(rules@, id),
{
    let mut j: usize = 0;
    while j < rules.len()
        invariant
            j <= rules@.len(),
            forall|k: int| 0 <= k < rules@.len() ==> rules@[k].layers@.len() > 0,
            out@ == old(out)@ + rules_records(rules@.take(j as int), id),
        decreases rules@.len() - j,
    {
        let rule = &rules[j];
        let first = &rule.layers[0];
        let record = GpuMaterialRule {
            id,
            r: first.r,
            g: first.g,
            b: first.b,
            a: 255,
            min_height: rule.min_height,
            max_height: rule.max_height,
            latitude_min: rule.latitude_min,
            latitude_max: rule.latitude_max,
            slope_min: rule.slope_min,
            slope_max: rule.slope_max,
        };
        out.push(record);
        proof {
            assert(record == rule_record(id, rules@[j as int]));
            assert(rules_records(rules@.take(j + 1), id) == rules_records(
                rules@.take(j as int),
                id,
            ).push(record));
        }
        j = j + 1;
    }
    proof {
        assert(rules@.take(j as int) == rules@);
    }
}

impl GpuMaterialRule {
    /// The colour of the record.
    pub open spec fn color(&self) -> (u8, u8, u8, u8) {
        (self.r, self.g, self.b, self.a)
    }

    /// Whether the record's ranges admit the given point.
    pub open spec fn admits(&self, height: Scalar, latitude: Scalar, slope: Scalar) -> bool {
        &&& axis_admits(height, self.min_height, self.max_height)
        &&& axis_admits(latitude, self.latitude_min, self.latitude_max)
        &&& axis_admits(slope, self.slope_min, self.slope_max)
    }

    /// Whether the record's ranges admit the given point.
    pub fn admits_point(&self, height: Scalar, latitude: Scalar, slope: Scalar) -> (r: bool)
        ensures
            r == self.admits(height, latitude, slope),
    {
        range_admits(&height, &self.min_height, &self.max_height) && range_admits(
            &latitude,
            &self.latitude_min,
            &self.latitude_max,
        ) && range_admits(&slope, &self.slope_min, &self.slope_max)
    }
}

impl GpuMaterialRule {
    /// The record as its sixteen words: the identifier, three words of
    /// padding, the four channels of the colour as shares of 255, the
    /// lower and upper bound of height, of latitude and of slope, and two
    /// words of padding. Padding is zero.
    pub open spec fn words(&self) -> Seq<u32> {
        seq![
            self.id,
            0,
            0,
            0,
            share_of(self.r as int, 255).bits,
            share_of(self.g as int, 255).bits,
            share_of(self.b as int, 255).bits,
            share_of(self.a as int, 255).bits,
            self.min_height.bits,
            self.max_height.bits,
            self.latitude_min.bits,
            self.latitude_max.bits,
            self.slope_min.bits,
            self.slope_max.bits,
            0,
            0,
        ]
    }

    /// Appends the words of the record.
    pub fn push_words(&self, out: &mut Vec<u32>)
        ensures
            final(out)@ == old(out)@ + self.words(),
    {
        out.push(self.id);
        out.push(0);
        out.push(0);
        out.push(0);
        out.push(unorm8(self.r).to_bits());
        out.push(unorm8(self.g).to_bits());
        out.push(unorm8(self.b).to_bits());
        out.push(unorm8(self.a).to_bits());
        out.push(self.min_height.to_bits());
        out.push(self.max_height.to_bits());
        out.push(self.latitude_min.to_bits());
        out.push(self.latitude_max.to_bits());
        out.push(self.slope_min.to_bits());
        out.push(self.slope_max.to_bits());
        out.push(0);
        out.push(0);
        assert(out@ == old(out)@ + self.words());
    }
}

impl GpuOreMap {
    /// The colour of the record.
    pub open spec fn color(&self) -> (u8, u8, u8, u8) {
        (self.r, self.g, self.b, self.a)
    }

    /// The record as its eight words: the identifier, three words of
    /// padding, and the four channels of the colour as shares of 255.
    /// Padding is zero.
    pub open spec fn words(&self) -> Seq<u32> {
        seq![
            self.id,
            0,
            0,
            0,
            share_of(self.r as int, 255).bits,
            share_of(self.g as int, 255).bits,
            share_of(self.b as int, 255).bits,
            share_of(self.a as int, 255).bits,
        ]
    }

    /// Appends the words of the record.
    pub fn push_words(&self, out: &mut Vec<u32>)
        ensures
            final(out)@ == old(out)@ + self.words(),
    {
        out.push(self.id);
        out.push(0);
        out.push(0);
        out.push(0);
        out.push(unorm8(self.r).to_bits());
        out.push(unorm8(self.g).to_bits());
        out.push(unorm8(self.b).to_bits());
        out.push(unorm8(self.a).to_bits());
        assert(out@ == old(out)@ + self.words());
    }
}

/// The words of a material table: the words of its records, record after
/// record.
pub open spec fn material_words(records: Seq<GpuMaterialRule>) -> Seq<u32>
    decreases records.len(),
{
    if records.len() == 0 {
        Seq::empty()
    } else {
        material_words(records.drop_last()) + records.last().words()
    }
}

/// The words of an ore table: the words of its records, record after
/// record.
pub open spec fn ore_words(records: Seq<GpuOreMap>) -> Seq<u32>
    decreases records.len(),
{
    if records.len() == 0 {
        Seq::empty()
    } else {
        ore_words(records.drop_last()) + records.last().words()
    }
}

/// The words of a material table.
pub fn material_table_words(table: &Vec<GpuMaterialRule>) -> (words: Vec<u32>)
    ensures
        words@ == material_words(table@),
{
    let mut words: Vec<u32> = Vec::new();
    let mut i: usize = 0;
    while i < table.len()
        invariant
            i <= table@.len(),
            words@ == material_words(table@.take(i as int)),
        decreases table@.len() - i,
    {
        proof {
            let next = table@.take(i + 1);
            assert(next.drop_last() == table@.take(i as int));
            assert(next.last() == table@[i as int]);
        }
        table[i].push_words(&mut words);
        i = i + 1;
    }
    proof {
        assert(table@.take(i as int) == table@);
    }
    words
}

/// The words of an ore table.
pub fn ore_table_words(table: &Vec<GpuOreMap>) -> (words: Vec<u32>)
    ensures
        words@ == ore_words(table@),
{
    let mut words: Vec<u32> = Vec::new();
    let mut i: usize = 0;
    while i < table.len()
        invariant
            i <= table@.len(),
            words@ == ore_words(table@.take(i as int)),
        decreases table@.len() - i,
    {
        proof {
            let next = table@.take(i + 1);
            assert(next.drop_last() == table@.take(i as int));
            assert(next.last() == table@[i as int]);
        }
        table[i].push_words(&mut words);
        i = i + 1;
    }
    proof {
        assert(table@.take(i as int) == table@);
    }
    words
}

/// A material table as it lies in its device buffer: 64 bytes for each
/// record, in table order.
pub fn material_table_bytes(table: &Vec<GpuMaterialRule>) -> (bytes: Vec<u8>)
    ensures
        bytes@.len() == MATERIAL_RULE_STRIDE * table@.len(),
        bytes_hold_words(bytes@, material_words(table@)),
{
    let words = material_table_words(table);
    proof {
        lemma_material_words_len(table@);
    }
    words_to_bytes(&words)
}

/// An ore table as it lies in its device buffer: 32 bytes for each
/// record, in table order.
pub fn ore_table_bytes(table: &Vec<GpuOreMap>) -> (bytes: Vec<u8>)
    ensures
        bytes@.len() == ORE_MAP_STRIDE * table@.len(),
        bytes_hold_words(bytes@, ore_words(table@)),
{
    let words = ore_table_words(table);
    proof {
        lemma_ore_words_len(table@);
    }
    words_to_bytes(&words)
}

proof fn lemma_material_words_len(records: Seq<GpuMaterialRule>)
    ensures
        material_words(records).len() == 16 * records.len(),
    decreases records.len(),
{
    if records.len() > 0 {
        lemma_material_words_len(records.drop_last());
    }
}

proof fn lemma_ore_words_len(records: Seq<GpuOreMap>)
    ensures
        ore_words(records).len() == 8 * records.len(),
    decreases records.len(),
{
    if records.len() > 0 {
        lemma_ore_words_len(records.drop_last());
    }
}

/// Record `i` of a material table begins sixteen words after record
/// `i - 1`: word `k` of the record is word `16 * i + k` of the table.
pub proof fn lemma_material_stride(records: Seq<GpuMaterialRule>, i: int, k: int)
    requires
        0 <= i < records.len(),
        0 <= k < 16,
    ensures
        material_words(records).len() == 16 * records.len(),
        material_words(records)[16 * i + k] == records[i].words()[k],
    decreases records.len(),
{
    lemma_material_words_len(records);
    lemma_material_words_len(records.drop_last());
    if i < records.len() - 1 {
        lemma_material_stride(records.drop_last(), i, k);
    }
}

/// Record `i` of an ore table begins eight words after record `i - 1`:
/// word `k` of the record is word `8 * i + k` of the table.
pub proof fn lemma_ore_stride(records: Seq<GpuOreMap>, i: int, k: int)
    requires
        0 <= i < records.len(),
        0 <= k < 8,
    ensures
        ore_words(records).len() == 8 * records.len(),
        ore_words(records)[8 * i + k] == records[i].words()[k],
    decreases records.len(),
{
    lemma_ore_words_len(records);
    lemma_ore_words_len(records.drop_last());
    if i < records.len() - 1 {
        lemma_ore_stride(records.drop_last(), i, k);
    }
}

impl PlanetMaterial {
    /// Whether every rule of every complex material has a layer, so that
    /// each rule has a colour to show.
    pub open spec fn rules_have_layers(&self) -> bool {
        forall|i: int, j: int|
            0 <= i < self.complex_materials.entries@.len() && 0 <= j
                < self.complex_materials.entries@[i].1.rules@.len()
                ==> #[trigger] self.complex_materials.entries@[i].1.rules@[j].layers@.len() > 0
    }

    /// Whether the name of every simple material denotes an identifier.
    pub open spec fn simple_ids_numeric(&self) -> bool {
        forall|i: int|
            0 <= i < self.simple_materials.entries@.len() ==> parsed_id(
                #[trigger] self.simple_materials.entries@[i].0@,
            ) is Some
    }

    /// Whether every ore names its type and, where that type has a colour,
    /// its value.
    pub open spec fn ores_described(&self, colors: OreColors) -> bool {
        forall|i: int|
            0 <= i < self.ores.entries@.len() ==> {
                let ore = #[trigger] self.ores.entries@[i].1;
                ore.ore_type is Some && (colors.contains(ore.ore_type.unwrap()@)
                    ==> ore.value is Some)
            }
    }

    /// Whether the device tables of this planet can be built.
    pub open spec fn gpu_ready(&self, colors: OreColors) -> bool {
        self.rules_have_layers() && self.simple_ids_numeric() && self.ores_described(colors)
    }

    /// Whether the device tables of this planet can be built.
    pub fn is_gpu_ready(&self, colors: &OreColors) -> (ready: bool)
        ensures
            ready == self.gpu_ready(*colors),
    {
        let mut i: usize = 0;
        while i < self.complex_materials.entries.len()
            invariant
                i <= self.complex_materials.entries@.len(),
                forall|m: int, j: int|
                    0 <= m < i && 0 <= j < self.complex_materials.entries@[m].1.rules@.len()
                        ==> #[trigger] self.complex_materials.entries@[m].1.rules@[j].layers@.len()
                        > 0,
            decreases self.complex_materials.entries@.len() - i,
        {
            let rules = &self.complex_materials.entries[i].1.rules;
            let mut j: usize = 0;
            while j < rules.len()
                invariant
                    j <= rules@.len(),
                    i < self.complex_materials.entries@.len(),
                    rules@ == self.complex_materials.entries@[i as int].1.rules@,
                    forall|k: int| 0 <= k < j ==> rules@[k].layers@.len() > 0,
                decreases rules@.len() - j,
            {
                if rules[j].layers.len() == 0 {
                    assert(self.complex_materials.entries@[i as int].1.rules@[j as int].layers@.len()
                        == 0);
                    return false;
                }
                j = j + 1;
            }
            i = i + 1;
        }
        let mut i: usize = 0;
        while i < self.simple_materials.entries.len()
            invariant
                i <= self.simple_materials.entries@.len(),
                forall|m: int|
                    0 <= m < i ==> parsed_id(#[trigger] self.simple_materials.entries@[m].0@)
                        is Some,
            decreases self.simple_materials.entries@.len() - i,
        {
            if parse_id(self.simple_materials.entries[i].0.as_str()).is_none() {
                assert(parsed_id(self.simple_materials.entries@[i as int].0@) is None);
                return false;
            }
            i = i + 1;
        }
        let mut i: usize = 0;
        while i < self.ores.entries.len()
            invariant
                i <= self.ores.entries@.len(),
                forall|m: int|
                    0 <= m < i ==> {
                        let ore = #[trigger] self.ores.entries@[m].1;
                        ore.ore_type is Some && (colors.contains(ore.ore_type.unwrap()@)
                            ==> ore.value is Some)
                    },
            decreases self.ores.entries@.len() - i,
        {
            let ore = &self.ores.entries[i].1;
            match &ore.ore_type {
                None => {
                    assert(self.ores.entries@[i as int].1.ore_type is None);
                    return false;
                },
                Some(name) => {
                    if colors.find(name.as_str()).is_some() && ore.value.is_none() {
                        assert(self.ores.entries@[i as int].1.value is None);
                        return false;
                    }
                },
            }
            i = i + 1;
        }
        true
    }

    /// The table of complex material rules: one record per rule, material
    /// by material in table order and rule by rule within each, or the
    /// placeholder where there is no rule at all.
    pub fn complex_materials_to_gpu(&self) -> (table: Vec<GpuMaterialRule>)
        requires
            self.rules_have_layers(),
        ensures
            table@ == or_placeholder(
                complex_records(self.complex_materials.entries@),
                Scalar { bits: ZERO_BITS },
            ),
    {
        let mut table: Vec<GpuMaterialRule> = Vec::new();
        let mut i: usize = 0;
        while i < self.complex_materials.entries.len()
            invariant
                i <= self.complex_materials.entries@.len(),
                self.rules_have_layers(),
                table@ == complex_records(self.complex_materials.entries@.take(i as int)),
            decreases self.complex_materials.entries@.len() - i,
        {
            let material = &self.complex_materials.entries[i].1;
            proof {
                let next = self.complex_materials.entries@.take(i + 1);
                assert(next.drop_last() == self.complex_materials.entries@.take(i as int));
                assert(next.last() == self.complex_materials.entries@[i as int]);
                assert forall|j: int| 0 <= j < material.rules@.len() implies material.rules@[j].layers@.len()
                    > 0 by {
                    assert(self.complex_materials.entries@[i as int].1.rules@[j].layers@.len() > 0);
                }
            }
            push_rule_records(&material.rules, wrap_id(material.id), &mut table);
            i = i + 1;
        }
        proof {
            assert(self.complex_materials.entries@.take(i as int)
                == self.complex_materials.entries@);
        }
        if table.len() == 0 {
            table.push(make_placeholder(Scalar::zero()));
            assert(table@ == seq![placeholder_record(Scalar { bits: ZERO_BITS })]);
        }
        table
    }

    /// The table of simple materials: one record per material in table
    /// order, or the placeholder, with both slope bounds one, where there
    /// is no simple material. Where no two materials share a name, the
    /// table holds one record for every name, that of the material which
    /// the name finds.
    pub fn simple_materials_to_gpu(&self) -> (table: Vec<GpuMaterialRule>)
        requires
            self.simple_ids_numeric(),
        ensures
            table@ == or_placeholder(
                simple_records(self.simple_materials.entries@),
                Scalar { bits: ONE_BITS },
            ),
            self.simple_materials.distinct() ==> forall|i: int|
                0 <= i < self.simple_materials.entries@.len() ==> #[trigger] table@[i]
                    == named_record(self.simple_materials, self.simple_materials.key(i)),
    {
        let mut table: Vec<GpuMaterialRule> = Vec::new();
        let mut i: usize = 0;
        while i < self.simple_materials.entries.len()
            invariant
                i <= self.simple_materials.entries@.len(),
                self.simple_ids_numeric(),
                table@.len() == i,
                forall|m: int|
                    0 <= m < i ==> table@[m] == simple_record(self.simple_materials.entries@[m]),
            decreases self.simple_materials.entries@.len() - i,
        {
            let entry = &self.simple_materials.entries[i];
            let id = parse_id(entry.0.as_str());
            assert(parsed_id(self.simple_materials.entries@[i as int].0@) is Some);
            match id {
                Some(id) => {
                    table.push(make_flat_record(id, &entry.1));
                },
                None => {},
            }
            i = i + 1;
        }
        proof {
            assert(table@ =~= simple_records(self.simple_materials.entries@));
            if self.simple_materials.distinct() {
                assert forall|m: int|
                    0 <= m < self.simple_materials.entries@.len() implies #[trigger] table@[m]
                    == named_record(self.simple_materials, self.simple_materials.key(m)) by {
                    self.simple_materials.lemma_distinct_lookup(m);
                }
            }
        }
        if table.len() == 0 {
            table.push(make_placeholder(Scalar::one()));
            assert(table@ == seq![placeholder_record(Scalar { bits: ONE_BITS })]);
        }
        table
    }

    /// The table of the default material: its single record, under
    /// identifier zero.
    pub fn default_material_to_gpu(&self) -> (table: Vec<GpuMaterialRule>)
        ensures
            table@ == seq![flat_record(0, self.default_material)],
    {
        let mut table: Vec<GpuMaterialRule> = Vec::new();
        table.push(make_flat_record(0, &self.default_material));
        assert(table@ == seq![flat_record(0, self.default_material)]);
        table
    }

    /// The ore table: one record, in table order, for each ore whose type
    /// has a colour. Ores of other types are left out.
    pub fn ore_map_to_gpu(&self, colors: &OreColors) -> (table: Vec<GpuOreMap>)
        requires
            self.ores_described(*colors),
        ensures
            table@ == ore_records(self.ores.entries@, *colors),
    {
        let mut table: Vec<GpuOreMap> = Vec::new();
        let mut i: usize = 0;
        while i < self.ores.entries.len()
            invariant
                i <= self.ores.entries@.len(),
                self.ores_described(*colors),
                table@ == ore_records(self.ores.entries@.take(i as int), *colors),
            decreases self.ores.entries@.len() - i,
        {
            let ore = &self.ores.entries[i].1;
            proof {
                let next = self.ores.entries@.take(i + 1);
                assert(next.drop_last() == self.ores.entries@.take(i as int));
                assert(next.last() == self.ores.entries@[i as int]);
                let described = self.ores.entries@[i as int].1;
                assert(described.ore_type is Some);
            }
            match &ore.ore_type {
                Some(name) => {
                    match colors.get(name.as_str()) {
                        Some(c) => {
                            proof {
                                let described = self.ores.entries@[i as int].1;
                                assert(colors.contains(described.ore_type.unwrap()@));
                            }
                            match ore.value {
                                Some(id) => {
                                    table.push(GpuOreMap { id, r: c.0, g: c.1, b: c.2, a: 255 });
                                },
                                None => {},
                            }
                        },
                        None => {},
                    }
                },
                None => {},
            }
            i = i + 1;
        }
        proof {
            assert(self.ores.entries@.take(i as int) == self.ores.entries@);
        }
        table
    }

    /// The positions, in table order, of the ores that the ore table leaves
    /// out because their type has no colour.
    pub fn ores_without_color(&self, colors: &OreColors) -> (positions: Vec<usize>)
        requires
            self.ores_described(*colors),
        ensures
            positions@ == unmapped_ores(self.ores.entries@, *colors),
    {
        let mut positions: Vec<usize> = Vec::new();
        let mut i: usize = 0;
        while i < self.ores.entries.len()
            invariant
                i <= self.ores.entries@.len(),
                self.ores_described(*colors),
                positions@ == unmapped_ores(self.ores.entries@.take(i as int), *colors),
            decreases self.ores.entries@.len() - i,
        {
            let ore = &self.ores.entries[i].1;
            proof {
                let next = self.ores.entries@.take(i + 1);
                assert(next.drop_last() == self.ores.entries@.take(i as int));
                assert(next.last() == self.ores.entries@[i as int]);
                let described = self.ores.entries@[i as int].1;
                assert(described.ore_type is Some);
            }
            match &ore.ore_type {
                Some(name) => {
                    if colors.find(name.as_str()).is_none() {
                        positions.push(i);
                    }
                },
                None => {},
            }
            i = i + 1;
        }
        proof {
            assert(self.ores.entries@.take(i as int) == self.ores.entries@);
        }
        positions
    }
}

/// Whether a record belongs to the material `id`.
pub open spec fn has_id(id: u32) -> spec_fn(GpuMaterialRule) -> bool {
    |record: GpuMaterialRule| record.id == id
}

/// The records of a table that belong to the material `id`, in table
/// order.
pub open spec fn records_of(table: Seq<GpuMaterialRule>, id: u32) -> Seq<GpuMaterialRule> {
    table.filter(has_id(id))
}

/// Whether no two complex materials carry the same identifier.
pub open spec fn ids_distinct(entries: Seq<(String, VoxelMaterial)>) -> bool {
    forall|a: int, b: int|
        0 <= a < b < entries.len() ==> (#[trigger] entries[a]).1.id != (#[trigger] entries[b]).1.id
}

/// The records of one material all belong to it, and to no other.
proof fn lemma_own_records(rules: Seq<MaterialRule>, id: u32, wanted: u32)
    ensures
        records_of(rules_records(rules, id), wanted) == if id == wanted {
            rules_records(rules, id)
        } else {
            Seq::empty()
        },
    decreases rules.len(),
{
    reveal(Seq::filter);
    let records = rules_records(rules, id);
    if rules.len() > 0 {
        lemma_own_records(rules.drop_last(), id, wanted);
        assert(records.drop_last() == rules_records(rules.drop_last(), id));
        assert(records.last() == rule_record(id, rules.last()));
        if id == wanted {
            assert(records.drop_last().push(records.last()) == records);
        }
    }
}

/// Materials with other identifiers have no record under `wanted`.
proof fn lemma_no_records(entries: Seq<(String, VoxelMaterial)>, wanted: u32)
    requires
        forall|a: int| 0 <= a < entries.len() ==> wrapped_id((#[trigger] entries[a]).1.id) != wanted,
    ensures
        records_of(complex_records(entries), wanted) == Seq::<GpuMaterialRule>::empty(),
    decreases entries.len(),
{
    if entries.len() == 0 {
        reveal(Seq::filter);
    } else {
        let rest = entries.drop_last();
        let last = entries.last().1;
        assert forall|a: int| 0 <= a < rest.len() implies wrapped_id((#[trigger] rest[a]).1.id)
            != wanted by {
            assert(rest[a] == entries[a]);
        }
        lemma_no_records(rest, wanted);
        lemma_own_records(last.rules@, wrapped_id(last.id), wanted);
        Seq::filter_distributes_over_add(
            complex_records(rest),
            rules_records(last.rules@, wrapped_id(last.id)),
            has_id(wanted),
        );
    }
}

/// What is left of distinct identifiers when the last material is set
/// aside: the others are distinct among themselves, and none of them
/// carries the identifier of the last.
proof fn lemma_rest_distinct(entries: Seq<(String, VoxelMaterial)>)
    requires
        ids_distinct(entries),
        entries.len() > 0,
    ensures
        ids_distinct(entries.drop_last()),
        forall|a: int|
            0 <= a < entries.len() - 1 ==> wrapped_id((#[trigger] entries.drop_last()[a]).1.id)
                != wrapped_id(entries.last().1.id),
{
    let rest = entries.drop_last();
    let end = entries.len() - 1;
    assert forall|a: int, b: int| 0 <= a < b < rest.len() implies (#[trigger] rest[a]).1.id != (
    #[trigger] rest[b]).1.id by {
        assert(entries[a].1.id != entries[b].1.id);
    }
    assert forall|a: int| 0 <= a < end implies wrapped_id((#[trigger] rest[a]).1.id) != wrapped_id(
        entries.last().1.id,
    ) by {
        assert(entries[a].1.id != entries[end].1.id);
    }
}

/// The placeholder is no record of any material but the one that carries
/// its identifier.
proof fn lemma_placeholder_is_no_record(slope: Scalar, wanted: u32)
    requires
        wanted != PLACEHOLDER_ID,
    ensures
        records_of(seq![placeholder_record(slope)], wanted) == Seq::<GpuMaterialRule>::empty(),
{
    reveal(Seq::filter);
    let table = seq![placeholder_record(slope)];
    assert(table.drop_last() == Seq::<GpuMaterialRule>::empty());
    assert(table.drop_last().filter(has_id(wanted)) == Seq::<GpuMaterialRule>::empty());
}

/// Where no two complex materials carry the same identifier, the records
/// that carry the identifier of a material are the records of that
/// material's rules, one for each rule and in the order of the rules.
pub proof fn lemma_material_records(entries: Seq<(String, VoxelMaterial)>, i: int)
    requires
        ids_distinct(entries),
        0 <= i < entries.len(),
    ensures
        records_of(complex_records(entries), wrapped_id(entries[i].1.id)) == rules_records(
            entries[i].1.rules@,
            wrapped_id(entries[i].1.id),
        ),
    decreases entries.len(),
{
    let wanted = wrapped_id(entries[i].1.id);
    let rest = entries.drop_last();
    let last = entries.last().1;
    let before = complex_records(rest);
    let own = rules_records(last.rules@, wrapped_id(last.id));
    assert(complex_records(entries) == before + own);
    Seq::filter_distributes_over_add(before, own, has_id(wanted));
    lemma_own_records(last.rules@, wrapped_id(last.id), wanted);
    lemma_rest_distinct(entries);
    if i == entries.len() - 1 {
        lemma_no_records(rest, wanted);
        assert(records_of(before, wanted) + own == own);
    } else {
        assert(rest[i] == entries[i]);
        lemma_material_records(rest, i);
        assert(records_of(own, wanted) == Seq::<GpuMaterialRule>::empty());
        assert(records_of(before, wanted) + Seq::<GpuMaterialRule>::empty() == records_of(
            before,
            wanted,
        ));
    }
}

/// The same holds of the table as it goes to the device, unless the
/// identifier is that of the placeholder.
pub proof fn lemma_material_records_on_device(entries: Seq<(String, VoxelMaterial)>, i: int)
    requires
        ids_distinct(entries),
        0 <= i < entries.len(),
        wrapped_id(entries[i].1.id) != PLACEHOLDER_ID,
    ensures
        records_of(
            or_placeholder(complex_records(entries), Scalar { bits: ZERO_BITS }),
            wrapped_id(entries[i].1.id),
        ) == rules_records(entries[i].1.rules@, wrapped_id(entries[i].1.id)),
{
    lemma_material_records(entries, i);
    if complex_records(entries).len() == 0 {
        lemma_placeholder_is_no_record(Scalar { bits: ZERO_BITS }, wrapped_id(entries[i].1.id));
    }
}

} // verus!
