//! Resolving material names to the average colour of their textures.
//!
//! A material name leads, through the texture file table, to a folder and a
//! file; the colour table holds, folder by folder, the average colour of
//! each file. A file that its own folder does not list is looked up in the
//! folder named `default`. A caching pass writes the colours found into
//! the layers of a planet and reports every layer that kept its
//! placeholder.

use vstd::prelude::*;
use crate::error::Error;
use crate::material::{MaterialLayer, MaterialRule, PlanetMaterial, VoxelMaterial};
use crate::table::NameTable;

verus! {

/// Where the texture of a material lies.
#[derive(Debug, PartialEq)]
pub struct MatEntry {
    pub path: String,
    pub file: String,
}

/// The texture of each material, by material name.
#[derive(Debug, PartialEq)]
pub struct MatFile(pub NameTable<MatEntry>);

/// The channels of an average colour; a usable one has exactly three.
#[derive(Debug, PartialEq)]
pub struct AverageColor(pub Vec<u8>);

/// The average colour of each texture file of one folder, by file name.
#[derive(Debug, PartialEq)]
pub struct PlanetMaterialAverage(pub NameTable<AverageColor>);

/// The colour tables of all folders, by folder name.
#[derive(Debug, PartialEq)]
pub struct MatColorAverage(pub NameTable<PlanetMaterialAverage>);

/// The place of a layer within a planet's materials.
#[derive(Clone, Copy, Debug, PartialEq, Eq, Structural)]
pub enum Slot {
    /// Layer `layer` of rule `rule` of the complex material at position
    /// `material`.
    Complex { material: usize, rule: usize, layer: usize },
    /// The simple material at position `material`.
    Simple { material: usize },
    /// The default material.
    Default,
}

/// A layer that kept its placeholder colour, and why.
#[derive(Clone, Copy, Debug, PartialEq, Eq, Structural)]
pub struct CacheIssue {
    pub slot: Slot,
    pub error: Error,
}

/// The channels that folder `folder` lists for `file`.
pub open spec fn average_in(averages: MatColorAverage, folder: Seq<char>, file: Seq<char>) -> Option<
    Seq<u8>,
> {
    match averages.0.lookup(folder) {
        Some(colors) => match colors.0.lookup(file) {
            Some(color) => Some(color.0@),
            None => None,
        },
        None => None,
    }
}

/// The colour that a material name resolves to, or the reason why it
/// resolves to none.
pub open spec fn resolution(material: Seq<char>, matfiles: MatFile, averages: MatColorAverage) -> Result<
    (u8, u8, u8),
    Error,
> {
    match matfiles.0.lookup(material) {
        None => Err(Error::UnknownMaterial),
        Some(entry) => {
            let own = average_in(averages, entry.path@, entry.file@);
            let channels = if own is Some {
                own
            } else {
                average_in(averages, "default"@, entry.file@)
            };
            match channels {
                None => Err(Error::UnresolvedMaterialColor),
                Some(c) => if c.len() == 3 {
                    Ok((c[0], c[1], c[2]))
                } else {
                    Err(Error::InvalidColorFormat)
                },
            }
        },
    }
}

/// A layer after a caching pass: recoloured where its material resolves,
/// unchanged where it does not.
pub open spec fn cached_layer(
    layer: MaterialLayer,
    matfiles: MatFile,
    averages: MatColorAverage,
) -> MaterialLayer {
    match resolution(layer.material@, matfiles, averages) {
        Ok(c) => MaterialLayer {
            r: c.0,
            g: c.1,
            b: c.2,
            material: layer.material,
            depth: layer.depth,
        },
        Err(_) => layer,
    }
}

/// What a caching pass reports of one layer.
pub open spec fn layer_issues(
    layer: MaterialLayer,
    slot: Slot,
    matfiles: MatFile,
    averages: MatColorAverage,
) -> Seq<CacheIssue> {
    match resolution(layer.material@, matfiles, averages) {
        Ok(_) => Seq::empty(),
        Err(error) => seq![CacheIssue { slot, error }],
    }
}

fn lookup_average<'a>(averages: &'a MatColorAverage, folder: &str, file: &str) -> (found: Option<
    &'a AverageColor,
>)
    ensures
        match found {
            Some(color) => average_in(*averages, folder@, file@) == Some(color.0@),
            None => average_in(*averages, folder@, file@) is None,
        },
{
    match averages.0.get(folder) {
        Some(colors) => colors.0.get(file),
        None => None,
    }
}

/// The colour that a material name resolves to.
pub fn resolve_color(material: &str, matfiles: &MatFile, averages: &MatColorAverage) -> (found:
    Result<(u8, u8, u8), Error>)
    ensures
        found == resolution(material@, *matfiles, *averages),
{
    match matfiles.0.get(material) {
        None => Err(Error::UnknownMaterial),
        Some(entry) => {
            let own = lookup_average(averages, entry.path.as_str(), entry.file.as_str());
            let channels = match own {
                Some(color) => Some(color),
                None => lookup_average(averages, "default", entry.file.as_str()),
            };
            match channels {
                None => Err(Error::UnresolvedMaterialColor),
                Some(color) => {
                    if color.0.len() == 3 {
                        Ok((color.0[0], color.0[1], color.0[2]))
                    } else {
                        Err(Error::InvalidColorFormat)
                    }
                },
            }
        },
    }
}

/// Recolours one layer and appends to `report` if it did not resolve.
fn cache_layer(
    layer: &mut MaterialLayer,
    slot: Slot,
    matfiles: &MatFile,
    averages: &MatColorAverage,
    report: &mut Vec<CacheIssue>,
)
    ensures
        *final(layer) == cached_layer(*old(layer), *matfiles, *averages),
        final(report)@ == old(report)@ + layer_issues(*old(layer), slot, *matfiles, *averages),
{
    match resolve_color(layer.material.as_str(), matfiles, averages) {
        Ok(c) => {
            layer.r = c.0;
            layer.g = c.1;
            layer.b = c.2;
        },
        Err(error) => {
            report.push(CacheIssue { slot, error });
        },
    }
}

/// What a caching pass reports of the layers of one rule, in layer order.
pub open spec fn layers_issues(
    layers: Seq<MaterialLayer>,
    material: usize,
    rule: usize,
    matfiles: MatFile,
    averages: MatColorAverage,
) -> Seq<CacheIssue>
    decreases layers.len(),
{
    if layers.len() == 0 {
        Seq::empty()
    } else {
        layers_issues(layers.drop_last(), material, rule, matfiles, averages) + layer_issues(
            layers.last(),
            Slot::Complex { material, rule, layer: (layers.len() - 1) as usize },
            matfiles,
            averages,
        )
    }
}

/// What a caching pass reports of the rules of one complex material, in
/// rule order.
pub open spec fn rules_issues(
    rules: Seq<MaterialRule>,
    material: usize,
    matfiles: MatFile,
    averages: MatColorAverage,
) -> Seq<CacheIssue>
    decreases rules.len(),
{
    if rules.len() == 0 {
        Seq::empty()
    } else {
        rules_issues(rules.drop_last(), material, matfiles, averages) + layers_issues(
            rules.last().layers@,
            material,
            (rules.len() - 1) as usize,
            matfiles,
            averages,
        )
    }
}

/// What a caching pass reports of the complex materials, in table order.
pub open spec fn complex_issues(
    entries: Seq<(String, VoxelMaterial)>,
    matfiles: MatFile,
    averages: MatColorAverage,
) -> Seq<CacheIssue>
    decreases entries.len(),
{
    if entries.len() == 0 {
        Seq::empty()
    } else {
        complex_issues(entries.drop_last(), matfiles, averages) + rules_issues(
            entries.last().1.rules@,
            (entries.len() - 1) as usize,
            matfiles,
            averages,
        )
    }
}

/// What a caching pass reports of the simple materials, in table order.
pub open spec fn simple_issues(
    entries: Seq<(String, MaterialLayer)>,
    matfiles: MatFile,
    averages: MatColorAverage,
) -> Seq<CacheIssue>
    decreases entries.len(),
{
    if entries.len() == 0 {
        Seq::empty()
    } else {
        simple_issues(entries.drop_last(), matfiles, averages) + layer_issues(
            entries.last().1,
            Slot::Simple { material: (entries.len() - 1) as usize },
            matfiles,
            averages,
        )
    }
}

/// Whether `after` is `before` with every layer put through a caching
/// pass and nothing else changed.
pub open spec fn rule_cached(
    before: MaterialRule,
    after: MaterialRule,
    matfiles: MatFile,
    averages: MatColorAverage,
) -> bool {
    &&& after.min_height == before.min_height
    &&& after.max_height == before.max_height
    &&& after.latitude_min == before.latitude_min
    &&& after.latitude_max == before.latitude_max
    &&& after.slope_min == before.slope_min
    &&& after.slope_max == before.slope_max
    &&& after.layers@.len() == before.layers@.len()
    &&& forall|k: int|
        0 <= k < before.layers@.len() ==> after.layers@[k] == cached_layer(
            before.layers@[k],
            matfiles,
            averages,
        )
}

/// Whether `after` is `before` with every rule put through a caching pass
/// and nothing else changed.
pub open spec fn voxel_cached(
    before: VoxelMaterial,
    after: VoxelMaterial,
    matfiles: MatFile,
    averages: MatColorAverage,
) -> bool {
    &&& after.id == before.id
    &&& after.name == before.name
    &&& after.rules@.len() == before.rules@.len()
    &&& forall|j: int|
        0 <= j < before.rules@.len() ==> rule_cached(
            before.rules@[j],
            after.rules@[j],
            matfiles,
            averages,
        )
}

fn cache_layers(
    layers: &mut Vec<MaterialLayer>,
    material: usize,
    rule: usize,
    matfiles: &MatFile,
    averages: &MatColorAverage,
    report: &mut Vec<CacheIssue>,
)
    ensures
        final(layers)@.len() == old(layers)@.len(),
        forall|k: int|
            0 <= k < old(layers)@.len() ==> final(layers)@[k] == cached_layer(
                old(layers)@[k],
                *matfiles,
                *averages,
            ),
        final(report)@ == old(report)@ + layers_issues(
            old(layers)@,
            material,
            rule,
            *matfiles,
            *averages,
        ),
{
    let mut k: usize = 0;
    while k < layers.len()
        invariant
            k <= layers@.len(),
            layers@.len() == old(layers)@.len(),
            forall|i: int|
                0 <= i < k ==> layers@[i] == cached_layer(old(layers)@[i], *matfiles, *averages),
            forall|i: int| k <= i < layers@.len() ==> layers@[i] == old(layers)@[i],
            report@ == old(report)@ + layers_issues(
                old(layers)@.take(k as int),
                material,
                rule,
                *matfiles,
                *averages,
            ),
        decreases layers@.len() - k,
    {
        proof {
            let next = old(layers)@.take(k + 1);
            assert(next.drop_last() == old(layers)@.take(k as int));
            assert(next.last() == old(layers)@[k as int]);
        }
        cache_layer(
            &mut layers[k],
            Slot::Complex { material, rule, layer: k },
            matfiles,
            averages,
            report,
        );
        k = k + 1;
    }
    proof {
        assert(old(layers)@.take(k as int) == old(layers)@);
    }
}

fn cache_rules(
    rules: &mut Vec<MaterialRule>,
    material: usize,
    matfiles: &MatFile,
    averages: &MatColorAverage,
    report: &mut Vec<CacheIssue>,
)
    ensures
        final(rules)@.len() == old(rules)@.len(),
        forall|j: int|
            0 <= j < old(rules)@.len() ==> rule_cached(
                old(rules)@[j],
                final(rules)@[j],
                *matfiles,
                *averages,
            ),
        final(report)@ == old(report)@ + rules_issues(old(rules)@, material, *matfiles, *averages),
{
    let mut j: usize = 0;
    while j < rules.len()
        invariant
            j <= rules@.len(),
            rules@.len() == old(rules)@.len(),
            forall|i: int|
                0 <= i < j ==> rule_cached(old(rules)@[i], rules@[i], *matfiles, *averages),
            forall|i: int| j <= i < rules@.len() ==> rules@[i] == old(rules)@[i],
            report@ == old(report)@ + rules_issues(
                old(rules)@.take(j as int),
                material,
                *matfiles,
                *averages,
            ),
        decreases rules@.len() - j,
    {
        proof {
            let next = old(rules)@.take(j + 1);
            assert(next.drop_last() == old(rules)@.take(j as int));
            assert(next.last() == old(rules)@[j as int]);
        }
        cache_layers(&mut rules[j].layers, material, j, matfiles, averages, report);
        j = j + 1;
    }
    proof {
        assert(old(rules)@.take(j as int) == old(rules)@);
    }
}

fn cache_complex(
    table: &mut NameTable<VoxelMaterial>,
    matfiles: &MatFile,
    averages: &MatColorAverage,
    report: &mut Vec<CacheIssue>,
)
    ensures
        final(table).entries@.len() == old(table).entries@.len(),
        forall|i: int|
            0 <= i < old(table).entries@.len() ==> final(table).entries@[i].0 == old(
                table,
            ).entries@[i].0 && voxel_cached(
                old(table).entries@[i].1,
                final(table).entries@[i].1,
                *matfiles,
                *averages,
            ),
        final(report)@ == old(report)@ + complex_issues(old(table).entries@, *matfiles, *averages),
{
    let mut i: usize = 0;
    while i < table.entries.len()
        invariant
            i <= table.entries@.len(),
            table.entries@.len() == old(table).entries@.len(),
            forall|m: int|
                0 <= m < i ==> table.entries@[m].0 == old(table).entries@[m].0 && voxel_cached(
                    old(table).entries@[m].1,
                    table.entries@[m].1,
                    *matfiles,
                    *averages,
                ),
            forall|m: int| i <= m < table.entries@.len() ==> table.entries@[m] == old(
                table,
            ).entries@[m],
            report@ == old(report)@ + complex_issues(
                old(table).entries@.take(i as int),
                *matfiles,
                *averages,
            ),
        decreases table.entries@.len() - i,
    {
        proof {
            let next = old(table).entries@.take(i + 1);
            assert(next.drop_last() == old(table).entries@.take(i as int));
            assert(next.last() == old(table).entries@[i as int]);
        }
        cache_rules(&mut table.entries[i].1.rules, i, matfiles, averages, report);
        i = i + 1;
    }
    proof {
        assert(old(table).entries@.take(i as int) == old(table).entries@);
    }
}

fn cache_simple(
    table: &mut NameTable<MaterialLayer>,
    matfiles: &MatFile,
    averages: &MatColorAverage,
    report: &mut Vec<CacheIssue>,
)
    ensures
        final(table).entries@.len() == old(table).entries@.len(),
        forall|i: int|
            0 <= i < old(table).entries@.len() ==> final(table).entries@[i].0 == old(
                table,
            ).entries@[i].0 && final(table).entries@[i].1 == cached_layer(
                old(table).entries@[i].1,
                *matfiles,
                *averages,
            ),
        final(report)@ == old(report)@ + simple_issues(old(table).entries@, *matfiles, *averages),
{
    let mut i: usize = 0;
    while i < table.entries.len()
        invariant
            i <= table.entries@.len(),
            table.entries@.len() == old(table).entries@.len(),
            forall|m: int|
                0 <= m < i ==> table.entries@[m].0 == old(table).entries@[m].0
                    && table.entries@[m].1 == cached_layer(
                    old(table).entries@[m].1,
                    *matfiles,
                    *averages,
                ),
            forall|m: int| i <= m < table.entries@.len() ==> table.entries@[m] == old(
                table,
            ).entries@[m],
            report@ == old(report)@ + simple_issues(
                old(table).entries@.take(i as int),
                *matfiles,
                *averages,
            ),
        decreases table.entries@.len() - i,
    {
        proof {
            let next = old(table).entries@.take(i + 1);
            assert(next.drop_last() == old(table).entries@.take(i as int));
            assert(next.last() == old(table).entries@[i as int]);
        }
        cache_layer(
            &mut table.entries[i].1,
            Slot::Simple { material: i },
            matfiles,
            averages,
            report,
        );
        i = i + 1;
    }
    proof {
        assert(old(table).entries@.take(i as int) == old(table).entries@);
    }
}

impl PlanetMaterial {
    /// Whether `self` is `before` after a caching pass: every layer of the
    /// complex materials, every simple material and the default material
    /// recoloured where its material name resolves, and nothing else
    /// changed.
    pub open spec fn cached_from(
        &self,
        before: PlanetMaterial,
        matfiles: MatFile,
        averages: MatColorAverage,
    ) -> bool {
        &&& self.name == before.name
        &&& self.base_path == before.base_path
        &&& self.ores == before.ores
        &&& self.default_material == cached_layer(before.default_material, matfiles, averages)
        &&& self.simple_materials.entries@.len() == before.simple_materials.entries@.len()
        &&& forall|i: int|
            0 <= i < before.simple_materials.entries@.len() ==> {
                &&& self.simple_materials.entries@[i].0 == before.simple_materials.entries@[i].0
                &&& self.simple_materials.entries@[i].1 == cached_layer(
                    before.simple_materials.entries@[i].1,
                    matfiles,
                    averages,
                )
            }
        &&& self.complex_materials.entries@.len() == before.complex_materials.entries@.len()
        &&& forall|i: int|
            0 <= i < before.complex_materials.entries@.len() ==> {
                &&& self.complex_materials.entries@[i].0 == before.complex_materials.entries@[i].0
                &&& voxel_cached(
                    before.complex_materials.entries@[i].1,
                    self.complex_materials.entries@[i].1,
                    matfiles,
                    averages,
                )
            }
    }

    /// Everything that a caching pass over `self` reports: the complex
    /// materials first, then the simple ones, then the default material.
    pub open spec fn cache_issues(&self, matfiles: MatFile, averages: MatColorAverage) -> Seq<
        CacheIssue,
    > {
        complex_issues(self.complex_materials.entries@, matfiles, averages) + simple_issues(
            self.simple_materials.entries@,
            matfiles,
            averages,
        ) + layer_issues(self.default_material, Slot::Default, matfiles, averages)
    }

    /// Writes into every layer the average colour that its material name
    /// resolves to. A layer whose name does not resolve keeps its colour
    /// and is reported; the pass always runs to its end.
    pub fn cache(&mut self, matfiles: &MatFile, matcoloravg: &MatColorAverage) -> (report: Vec<
        CacheIssue,
    >)
        ensures
            final(self).cached_from(*old(self), *matfiles, *matcoloravg),
            final(self).names_distinct() == old(self).names_distinct(),
            report@ == old(self).cache_issues(*matfiles, *matcoloravg),
    {
        let mut report: Vec<CacheIssue> = Vec::new();
        cache_complex(&mut self.complex_materials, matfiles, matcoloravg, &mut report);
        cache_simple(&mut self.simple_materials, matfiles, matcoloravg, &mut report);
        cache_layer(&mut self.default_material, Slot::Default, matfiles, matcoloravg, &mut report);
        proof {
            assert forall|i: int| 0 <= i < self.simple_materials.entries@.len() implies (
            #[trigger] self.simple_materials.key(i)) == old(self).simple_materials.key(i) by {
                assert(self.simple_materials.entries@[i].0 == old(
                    self,
                ).simple_materials.entries@[i].0);
            }
            assert forall|i: int| 0 <= i < self.complex_materials.entries@.len() implies (
            #[trigger] self.complex_materials.key(i)) == old(self).complex_materials.key(i) by {
                assert(self.complex_materials.entries@[i].0 == old(
                    self,
                ).complex_materials.entries@[i].0);
            }
            self.simple_materials.lemma_same_names(&old(self).simple_materials);
            self.complex_materials.lemma_same_names(&old(self).complex_materials);
        }
        report
    }
}

} // verus!
