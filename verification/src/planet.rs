//! A planet by its name and shape, and the files its surface comes from.

use vstd::prelude::*;
use vstd::string::StringExecFns;
use crate::error::Error;
use crate::faces::{get_surface_filename, surface_filename_of};
use crate::scalar::Scalar;

verus! {

/// The name of a planet, its radius, and the least and greatest height of
/// its hills as fractions of the radius.
#[derive(Debug, PartialEq)]
pub struct PlanetSpec {
    pub name: String,
    pub radius: Scalar,
    pub hill_params: [Scalar; 2],
}

impl PlanetSpec {
    /// The file of face `n` in the planet's folder, with `prefix` before
    /// the name of the face.
    pub open spec fn filename_of(&self, prefix: Seq<char>, n: int) -> Seq<char> {
        self.name@ + "/"@ + prefix + surface_filename_of(n)
    }

    /// A planet.
    pub fn new(name: String, radius: Scalar, hill_params: [Scalar; 2]) -> (spec: PlanetSpec)
        ensures
            spec.name == name,
            spec.radius == radius,
            spec.hill_params == hill_params,
    {
        PlanetSpec { name, radius, hill_params }
    }

    fn filename(&self, prefix: &str, n: u32) -> (name: Result<String, Error>)
        ensures
            n >= 6 <==> name == Err::<String, Error>(Error::InvalidFaceIndex),
            n < 6 ==> name is Ok && name.unwrap()@ == self.filename_of(prefix@, n as int),
    {
        match get_surface_filename(n) {
            Err(e) => Err(e),
            Ok(face) => {
                let path = self.name.clone().concat("/").concat(prefix).concat(face.as_str());
                Ok(path)
            },
        }
    }

    /// The file that holds the material map of face `n`.
    pub fn get_material_filename(&self, n: u32) -> (name: Result<String, Error>)
        ensures
            n >= 6 <==> name == Err::<String, Error>(Error::InvalidFaceIndex),
            n < 6 ==> name is Ok && name.unwrap()@ == self.filename_of(""@, n as int),
    {
        self.filename("", n)
    }

    /// The file that holds the height map of face `n`.
    pub fn get_heightmap_filename(&self, n: u32) -> (name: Result<String, Error>)
        ensures
            n >= 6 <==> name == Err::<String, Error>(Error::InvalidFaceIndex),
            n < 6 ==> name is Ok && name.unwrap()@ == self.filename_of("hm_"@, n as int),
    {
        self.filename("hm_", n)
    }

    /// The file that holds the normal map of face `n`.
    pub fn get_normal_filename(&self, n: u32) -> (name: Result<String, Error>)
        ensures
            n >= 6 <==> name == Err::<String, Error>(Error::InvalidFaceIndex),
            n < 6 ==> name is Ok && name.unwrap()@ == self.filename_of("normal_"@, n as int),
    {
        self.filename("normal_", n)
    }
}

} // verus!
