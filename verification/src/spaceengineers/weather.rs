//! Weather as the definition files give it.

use vstd::prelude::*;

verus! {

/// The weather generators of a planet.
#[derive(Debug, PartialEq)]
pub struct WeatherGenerators {
    pub weather_generator: Vec<WeatherGenerator>,
}

/// The weathers that occur over one voxel material.
#[derive(Debug, PartialEq)]
pub struct WeatherGenerator {
    pub voxel: String,
    pub weathers: Weathers,
}

/// A list of weathers.
#[derive(Debug, PartialEq)]
pub struct Weathers {
    pub weather: Vec<Weather>,
}

/// One weather: how likely it is, how long it lasts and when it sets in.
#[derive(Debug, PartialEq)]
pub struct Weather {
    pub name: Option<String>,
    pub weight: Option<u32>,
    pub min_length: Option<u32>,
    pub max_length: Option<u32>,
    pub spawn_offset: Option<u32>,
}

} // verus!
