//! Procedural planet surfaces.
//!
//! A planet is a cube blown up to a sphere. Each of the six faces is a grid
//! of vertices that a height map raises, and each comes with images that
//! classify its surface: latitude, slope and material colour. This crate
//! holds what is decided in that pipeline, with proofs:
//!
//! - [`scalar`], [`share`], [`whole`]: measured quantities as IEEE-754
//!   binary32 encodings, their order, and the shares and whole numbers
//!   among them;
//! - [`faces`]: the two numberings of the faces and the tables keyed by
//!   them;
//! - [`geom`], [`data`], [`cube_sphere`]: face grids, meshes, and the
//!   sphere with its height maps;
//! - [`raster`], [`sampler`]: reading images, and what a sample reads;
//! - [`material`], [`table`], [`cache`], [`ore_colors`], [`decimal`]:
//!   materials, the rules that pick one, and the colours behind their
//!   names;
//! - [`gpu_table`], [`classify`], [`device`], [`pass`]: the tables of the
//!   classification pass, what the pass computes for a pixel, the bytes
//!   that go to the device, and the plan of each pass;
//! - [`planet`], [`spaceengineers`], [`error`]: planets, their
//!   definitions, and the ways an operation can fail.
//!
//! Nothing here computes with fractions. Quantities are carried as
//! [`scalar::Scalar`], compared exactly, and written to device tables bit
//! for bit; placing a vertex or interpolating a sample is left to the
//! caller, who is handed everything but the arithmetic.

pub mod cache;
pub mod classify;
pub mod cube_sphere;
pub mod data;
pub mod decimal;
pub mod device;
pub mod error;
pub mod faces;
pub mod geom;
pub mod gpu_table;
pub mod material;
pub mod ore_colors;
pub mod pass;
pub mod planet;
pub mod raster;
pub mod sampler;
pub mod scalar;
pub mod share;
pub mod spaceengineers;
pub mod table;
pub mod whole;
