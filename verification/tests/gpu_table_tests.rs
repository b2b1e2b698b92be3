use nextgen::classify::MaterialTables;
use nextgen::gpu_table::{
    GpuMaterialRule, GpuOreMap, OreColors, MATERIAL_RULE_STRIDE, ORE_MAP_STRIDE, PLACEHOLDER_ID,
};
use nextgen::material::{MaterialLayer, MaterialRule, OreMap, PlanetMaterial, VoxelMaterial};
use nextgen::ore_colors::ore_colors;
use nextgen::scalar::Scalar;
use nextgen::table::NameTable;

fn s(x: f32) -> Scalar {
    Scalar::from_bits(x.to_bits())
}

fn layer(r: u8, g: u8, b: u8) -> MaterialLayer {
    MaterialLayer { r, g, b, material: "Stone".to_string(), depth: None }
}

fn rule(layers: Vec<MaterialLayer>, height: (f32, f32), lat: (f32, f32), slope: (f32, f32)) -> MaterialRule {
    MaterialRule {
        layers,
        min_height: s(height.0),
        max_height: s(height.1),
        latitude_min: s(lat.0),
        latitude_max: s(lat.1),
        slope_min: s(slope.0),
        slope_max: s(slope.1),
    }
}

fn ore(value: Option<u32>, ore_type: Option<&str>) -> OreMap {
    OreMap {
        value,
        ore_type: ore_type.map(|t| t.to_string()),
        start: Some(1),
        depth: Some(2),
        target_color: None,
        color_influence: None,
    }
}

fn empty_planet() -> PlanetMaterial {
    PlanetMaterial {
        name: "Planet".to_string(),
        default_material: layer(9, 8, 7),
        simple_materials: NameTable::new(),
        complex_materials: NameTable::new(),
        ores: NameTable::new(),
        base_path: String::new(),
    }
}

fn full_planet() -> PlanetMaterial {
    let mut p = empty_planet();
    p.complex_materials.insert(
        "b".to_string(),
        VoxelMaterial {
            id: 5,
            name: "b".to_string(),
            rules: vec![
                rule(vec![layer(1, 2, 3), layer(99, 99, 99)], (0.0, 0.5), (0.0, 45.0), (0.0, 30.0)),
                rule(vec![layer(4, 5, 6)], (0.5, 1.0), (45.0, 90.0), (30.0, 90.0)),
            ],
        },
    );
    p.complex_materials.insert("empty".to_string(), VoxelMaterial { id: 6, name: "empty".to_string(), rules: vec![] });
    p.complex_materials.insert(
        "a".to_string(),
        VoxelMaterial {
            id: -1,
            name: "a".to_string(),
            rules: vec![rule(vec![layer(7, 8, 9)], (0.0, 1.0), (0.0, 90.0), (0.0, 90.0))],
        },
    );
    p.simple_materials.insert("12".to_string(), layer(10, 11, 12));
    p.simple_materials.insert("+3".to_string(), layer(13, 14, 15));
    p.ores.insert("first".to_string(), ore(Some(200), Some("Iron_01")));
    p.ores.insert("second".to_string(), ore(None, Some("Unobtainium")));
    p.ores.insert("third".to_string(), ore(Some(201), Some("Gold_01")));
    p.ores.insert("fourth".to_string(), ore(Some(202), Some("Kryptonite")));
    p
}

fn flat(id: u32, r: u8, g: u8, b: u8) -> GpuMaterialRule {
    GpuMaterialRule {
        id,
        r,
        g,
        b,
        a: 255,
        min_height: s(0.0),
        max_height: s(0.0),
        latitude_min: s(0.0),
        latitude_max: s(0.0),
        slope_min: s(0.0),
        slope_max: s(0.0),
    }
}

fn placeholder(slope: f32) -> GpuMaterialRule {
    GpuMaterialRule {
        id: 999,
        r: 0,
        g: 0,
        b: 0,
        a: 0,
        min_height: s(0.0),
        max_height: s(0.0),
        latitude_min: s(0.0),
        latitude_max: s(0.0),
        slope_min: s(slope),
        slope_max: s(slope),
    }
}

#[test]
fn record_sizes_are_multiples_of_sixteen() {
    assert_eq!(MATERIAL_RULE_STRIDE, 64);
    assert_eq!(ORE_MAP_STRIDE, 32);
    assert_eq!(MATERIAL_RULE_STRIDE % 16, 0);
    assert_eq!(ORE_MAP_STRIDE % 16, 0);
    assert_eq!(PLACEHOLDER_ID, 999);
}

#[test]
fn complex_table_keeps_material_and_rule_order() {
    let table = full_planet().complex_materials_to_gpu();
    assert_eq!(
        table,
        vec![
            GpuMaterialRule {
                id: 5,
                r: 1,
                g: 2,
                b: 3,
                a: 255,
                min_height: s(0.0),
                max_height: s(0.5),
                latitude_min: s(0.0),
                latitude_max: s(45.0),
                slope_min: s(0.0),
                slope_max: s(30.0),
            },
            GpuMaterialRule {
                id: 5,
                r: 4,
                g: 5,
                b: 6,
                a: 255,
                min_height: s(0.5),
                max_height: s(1.0),
                latitude_min: s(45.0),
                latitude_max: s(90.0),
                slope_min: s(30.0),
                slope_max: s(90.0),
            },
            GpuMaterialRule {
                id: u32::MAX,
                r: 7,
                g: 8,
                b: 9,
                a: 255,
                min_height: s(0.0),
                max_height: s(1.0),
                latitude_min: s(0.0),
                latitude_max: s(90.0),
                slope_min: s(0.0),
                slope_max: s(90.0),
            },
        ]
    );
}

#[test]
fn negative_identifier_wraps_like_a_cast() {
    let mut p = empty_planet();
    for id in [-1i32, i32::MIN, -255, 0, 255, i32::MAX] {
        p.complex_materials.insert(
            format!("m{}", id),
            VoxelMaterial {
                id,
                name: String::new(),
                rules: vec![rule(vec![layer(0, 0, 0)], (0.0, 1.0), (0.0, 1.0), (0.0, 1.0))],
            },
        );
    }
    let ids: Vec<u32> = p.complex_materials_to_gpu().iter().map(|r| r.id).collect();
    assert_eq!(ids, vec![(-1i32) as u32, i32::MIN as u32, (-255i32) as u32, 0, 255, i32::MAX as u32]);
}

#[test]
fn empty_complex_table_holds_the_placeholder() {
    assert_eq!(empty_planet().complex_materials_to_gpu(), vec![placeholder(0.0)]);
    let mut p = empty_planet();
    p.complex_materials.insert("none".to_string(), VoxelMaterial { id: 1, name: String::new(), rules: vec![] });
    assert_eq!(p.complex_materials_to_gpu(), vec![placeholder(0.0)]);
}

#[test]
fn simple_table_reads_identifiers_from_names() {
    assert_eq!(full_planet().simple_materials_to_gpu(), vec![flat(12, 10, 11, 12), flat(3, 13, 14, 15)]);
}

#[test]
fn empty_simple_table_holds_the_placeholder_with_slope_one() {
    assert_eq!(empty_planet().simple_materials_to_gpu(), vec![placeholder(1.0)]);
}

#[test]
fn default_table_holds_one_record_under_identifier_zero() {
    assert_eq!(full_planet().default_material_to_gpu(), vec![flat(0, 9, 8, 7)]);
}

#[test]
fn ore_table_leaves_out_ores_without_color() {
    let colors = ore_colors();
    let p = full_planet();
    assert_eq!(
        p.ore_map_to_gpu(&colors),
        vec![
            GpuOreMap { id: 200, r: 255, g: 216, b: 0, a: 255 },
            GpuOreMap { id: 201, r: 255, g: 0, b: 220, a: 255 },
        ]
    );
    assert_eq!(p.ores_without_color(&colors), vec![1, 3]);
}

#[test]
fn ore_table_of_no_ores_is_empty() {
    let colors = ore_colors();
    assert!(empty_planet().ore_map_to_gpu(&colors).is_empty());
    assert!(empty_planet().ores_without_color(&colors).is_empty());
}

#[test]
fn ore_table_uses_the_colors_it_is_given() {
    let mut colors: OreColors = NameTable::new();
    colors.insert("Kryptonite".to_string(), (1, 2, 3));
    let mut p = empty_planet();
    p.ores.insert("k".to_string(), ore(Some(5), Some("Kryptonite")));
    p.ores.insert("i".to_string(), ore(Some(6), Some("Iron_01")));
    assert_eq!(p.ore_map_to_gpu(&colors), vec![GpuOreMap { id: 5, r: 1, g: 2, b: 3, a: 255 }]);
    assert_eq!(p.ores_without_color(&colors), vec![1]);
}

#[test]
fn ready_planet_is_recognised() {
    let colors = ore_colors();
    assert!(full_planet().is_gpu_ready(&colors));
    assert!(empty_planet().is_gpu_ready(&colors));
}

#[test]
fn rule_without_layers_makes_a_planet_unready() {
    let colors = ore_colors();
    let mut p = full_planet();
    p.complex_materials.entries[2].1.rules.push(rule(vec![], (0.0, 1.0), (0.0, 1.0), (0.0, 1.0)));
    assert!(!p.is_gpu_ready(&colors));
}

#[test]
fn simple_name_that_is_no_number_makes_a_planet_unready() {
    let colors = ore_colors();
    let mut p = full_planet();
    p.simple_materials.insert("twelve".to_string(), layer(1, 1, 1));
    assert!(!p.is_gpu_ready(&colors));
}

#[test]
fn ore_without_type_makes_a_planet_unready() {
    let colors = ore_colors();
    let mut p = full_planet();
    p.ores.insert("x".to_string(), ore(Some(1), None));
    assert!(!p.is_gpu_ready(&colors));
}

#[test]
fn colored_ore_without_value_makes_a_planet_unready() {
    let colors = ore_colors();
    let mut p = full_planet();
    p.ores.insert("x".to_string(), ore(None, Some("Coal")));
    assert!(!p.is_gpu_ready(&colors));
}

#[test]
fn tables_of_a_planet_are_its_four_tables() {
    let colors = ore_colors();
    let p = full_planet();
    let tables = MaterialTables::from_materials(&p, &colors);
    assert_eq!(tables.default_materials, p.default_material_to_gpu());
    assert_eq!(tables.simple_materials, p.simple_materials_to_gpu());
    assert_eq!(tables.complex_materials, p.complex_materials_to_gpu());
    assert_eq!(tables.ores, p.ore_map_to_gpu(&colors));
}

#[test]
fn ore_colors_hold_the_twenty_known_types() {
    let colors = ore_colors();
    let expected: [(&str, (u8, u8, u8)); 20] = [
        ("Iron_01", (255, 216, 0)),
        ("Iron_02", (255, 216, 0)),
        ("Nickel_01", (239, 166, 117)),
        ("Silicon_01", (216, 107, 128)),
        ("Magnesium_01", (0, 255, 255)),
        ("Cobalt_01", (181, 254, 0)),
        ("Silver_01", (145, 145, 145)),
        ("Gold_01", (255, 0, 220)),
        ("Platinum_01", (219, 249, 255)),
        ("Uraninite_01", (155, 114, 241)),
        ("Copper", (184, 115, 51)),
        ("Bauxite", (249, 166, 64)),
        ("Coal", (145, 145, 145)),
        ("Titanium", (81, 127, 84)),
        ("OilSand", (183, 0, 3)),
        ("Sulfur", (190, 167, 151)),
        ("Lithium", (172, 80, 141)),
        ("Tantalum", (255, 0, 0)),
        ("Cronyx", (184, 115, 51)),
        ("Dorium", (181, 254, 0)),
    ];
    assert_eq!(colors.len(), 20);
    for (k, (name, color)) in expected.iter().enumerate() {
        assert_eq!(colors.entries[k].0, *name);
        assert_eq!(colors.entries[k].1, *color);
        assert_eq!(colors.get(name), Some(color));
    }
    assert_eq!(colors.get("Iron_03"), None);
}

#[test]
fn planets_built_by_insertion_have_distinct_names() {
    assert!(full_planet().has_distinct_names());
    assert!(empty_planet().has_distinct_names());
}

#[test]
fn a_name_that_occurs_twice_is_noticed_in_every_table() {
    let mut p = full_planet();
    p.simple_materials.entries.push(("12".to_string(), layer(0, 0, 0)));
    assert!(!p.has_distinct_names());
    let mut p = full_planet();
    p.complex_materials.entries.push(("a".to_string(), VoxelMaterial { id: 9, name: String::new(), rules: vec![] }));
    assert!(!p.has_distinct_names());
    let mut p = full_planet();
    p.ores.entries.push(("first".to_string(), ore(Some(1), Some("Coal"))));
    assert!(!p.has_distinct_names());
}

#[test]
fn simple_table_holds_the_record_of_the_material_that_each_name_finds() {
    let p = full_planet();
    let table = p.simple_materials_to_gpu();
    assert_eq!(table.len(), p.simple_materials.len());
    for (i, entry) in p.simple_materials.entries.iter().enumerate() {
        let found = p.simple_materials.get(&entry.0).unwrap();
        assert_eq!((table[i].r, table[i].g, table[i].b), (found.r, found.g, found.b));
        assert_eq!(Some(table[i].id), nextgen::decimal::parse_id(&entry.0));
    }
}

#[test]
fn records_of_one_material_stand_together_in_rule_order() {
    let p = full_planet();
    let table = p.complex_materials_to_gpu();
    for (_, material) in &p.complex_materials.entries {
        let own: Vec<&GpuMaterialRule> = table.iter().filter(|r| r.id == material.id as u32).collect();
        assert_eq!(own.len(), material.rules.len());
        for (record, rule) in own.iter().zip(material.rules.iter()) {
            assert_eq!((record.r, record.g, record.b, record.a), (rule.layers[0].r, rule.layers[0].g, rule.layers[0].b, 255));
            assert_eq!(record.min_height, rule.min_height);
            assert_eq!(record.max_height, rule.max_height);
            assert_eq!(record.latitude_min, rule.latitude_min);
            assert_eq!(record.latitude_max, rule.latitude_max);
            assert_eq!(record.slope_min, rule.slope_min);
            assert_eq!(record.slope_max, rule.slope_max);
        }
    }
}
