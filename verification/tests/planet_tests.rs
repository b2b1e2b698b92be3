use nextgen::error::Error;
use nextgen::planet::PlanetSpec;
use nextgen::scalar::Scalar;
use nextgen::spaceengineers::environment::{
    Biome, Biomes, DefaultSubSurfaceMaterial, DefaultSurfaceMaterial, Material, Materials,
};
use nextgen::spaceengineers::id::Id;
use nextgen::spaceengineers::material::{Layer, Textures};
use nextgen::spaceengineers::oremapping::{Ore, OreMappings};
use nextgen::spaceengineers::planet_generator_definition::{
    MaterialsMaxDepth, MaterialsMinDepth, PlanetMaps,
};
use nextgen::spaceengineers::weather::{Weather, WeatherGenerator, WeatherGenerators, Weathers};

fn s(x: f32) -> Scalar {
    Scalar::from_bits(x.to_bits())
}

fn agaris() -> PlanetSpec {
    PlanetSpec::new("agaris".to_string(), s(1.0), [s(-0.03), s(0.03)])
}

#[test]
fn planet_keeps_what_it_is_made_of() {
    let p = agaris();
    assert_eq!(p.name, "agaris");
    assert_eq!(p.radius, s(1.0));
    assert_eq!(p.hill_params, [s(-0.03), s(0.03)]);
}

#[test]
fn material_files_lie_in_the_planets_folder() {
    let p = agaris();
    let faces = ["left", "back", "up", "down", "front", "right"];
    for (n, face) in faces.iter().enumerate() {
        assert_eq!(p.get_material_filename(n as u32), Ok(format!("agaris/{}.png", face)));
        assert_eq!(p.get_heightmap_filename(n as u32), Ok(format!("agaris/hm_{}.png", face)));
        assert_eq!(p.get_normal_filename(n as u32), Ok(format!("agaris/normal_{}.png", face)));
    }
}

#[test]
fn files_of_an_invalid_face_are_errors() {
    let p = agaris();
    assert_eq!(p.get_material_filename(6), Err(Error::InvalidFaceIndex));
    assert_eq!(p.get_heightmap_filename(6), Err(Error::InvalidFaceIndex));
    assert_eq!(p.get_normal_filename(u32::MAX), Err(Error::InvalidFaceIndex));
}

#[test]
fn planet_name_is_used_as_it_is() {
    let p = PlanetSpec::new(String::new(), s(1.0), [s(0.0), s(0.0)]);
    assert_eq!(p.get_material_filename(2), Ok("/up.png".to_string()));
    let p = PlanetSpec::new("Planet Agaris/v2".to_string(), s(1.0), [s(0.0), s(0.0)]);
    assert_eq!(p.get_heightmap_filename(5), Ok("Planet Agaris/v2/hm_right.png".to_string()));
}

#[test]
fn definitions_compare_by_their_fields() {
    assert_eq!(Biome { biome: Some(3) }, Biome { biome: Some(3) });
    assert_ne!(Biome { biome: Some(3) }, Biome { biome: None });
    assert_eq!(Material { material: Some("Stone".to_string()) }, Material { material: Some("Stone".to_string()) });
    assert_ne!(
        DefaultSurfaceMaterial { material: None, max_depth: Some(1) },
        DefaultSurfaceMaterial { material: None, max_depth: Some(2) }
    );
    assert_eq!(DefaultSubSurfaceMaterial { material: None }, DefaultSubSurfaceMaterial { material: None });
    assert_eq!(Biomes { biome: Some(vec![1, 2]) }, Biomes { biome: Some(vec![1, 2]) });
    assert_ne!(Materials { material: Some(vec![]) }, Materials { material: None });
    assert_eq!(Layer { material: None, depth: Some(4) }, Layer { material: None, depth: Some(4) });
    assert_eq!(Textures { texture: None }, Textures { texture: None });
    assert_eq!(
        PlanetMaps { material: true, ores: false, biome: true, occlusion: false },
        PlanetMaps { material: true, ores: false, biome: true, occlusion: false }
    );
    assert_ne!(MaterialsMaxDepth { min: 1, max: 2 }, MaterialsMaxDepth { min: 1, max: 3 });
    assert_eq!(MaterialsMinDepth { min: 1, max: 2 }, MaterialsMinDepth { min: 1, max: 2 });
}

#[test]
fn ore_mappings_hold_their_ores_in_order() {
    let ore = |value: u32| Ore {
        value: Some(value),
        ore_type: Some("Iron_01".to_string()),
        start: Some(3),
        depth: Some(5),
        target_color: Some("#616c83".to_string()),
        color_influence: Some(15),
    };
    let mappings = OreMappings { ores: Some(vec![ore(200), ore(201)]) };
    let values: Vec<u32> = mappings.ores.unwrap().iter().map(|o| o.value.unwrap()).collect();
    assert_eq!(values, vec![200, 201]);
}

#[test]
fn weather_generators_hold_their_weathers() {
    let generators = WeatherGenerators {
        weather_generator: vec![WeatherGenerator {
            voxel: "Grass".to_string(),
            weathers: Weathers {
                weather: vec![Weather {
                    name: Some("RainLight".to_string()),
                    weight: Some(20),
                    min_length: Some(300),
                    max_length: Some(600),
                    spawn_offset: Some(2000),
                }],
            },
        }],
    };
    assert_eq!(generators.weather_generator[0].voxel, "Grass");
    assert_eq!(generators.weather_generator[0].weathers.weather[0].weight, Some(20));
}

#[test]
fn identifier_shows_both_parts() {
    let id = Id { type_id: "PlanetGeneratorDefinition".to_string(), subtype_id: "Planet Agaris".to_string() };
    let shown = format!("{:?}", id);
    assert!(shown.contains("PlanetGeneratorDefinition"));
    assert!(shown.contains("Planet Agaris"));
}
