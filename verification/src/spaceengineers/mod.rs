//! Planet definitions as the game's definition files give them.
//!
//! Only the parts that hold no measured quantity are kept here; they carry
//! names, identifiers, counts and switches through to the rest of the
//! crate unchanged.

pub mod environment;
pub mod id;
pub mod material;
pub mod oremapping;
pub mod planet_generator_definition;
pub mod weather;
