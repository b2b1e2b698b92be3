//! Plans for the compute passes.
//!
//! A pass runs one invocation per pixel, in groups of eight by eight. What
//! is decided before anything goes to the device is decided here: whether
//! the inputs fit together, the tables and the parameter block, the number
//! of groups, and the layout of the buffer that brings a result back.

use vstd::prelude::*;
use crate::classify::MaterialTables;
use crate::device::{bytes_hold_words, words_to_bytes};
use crate::error::Error;
use crate::faces::{cubemap_name_of, cubemap_number_at, face_to_num};
use crate::gpu_table::OreColors;
use crate::material::PlanetMaterial;

verus! {

/// Pixels along one side of a work group.
pub const WORKGROUP_SIZE: u32 = 8;

/// Bytes of one pixel of a result image: four channels of eight bits.
pub const BYTES_PER_PIXEL: u32 = 4;

/// Bytes of the parameter block of the latitude pass.
pub const LATLUT_PARAMS_SIZE: usize = 12;

/// The size of an image in pixels.
#[derive(Clone, Copy, Debug, PartialEq, Eq, Structural)]
pub struct Extent {
    pub width: u32,
    pub height: u32,
}

/// The parameter block of the latitude pass: the face by its number and
/// the size of the result, as three words of 32 bits.
#[derive(Clone, Copy, Debug, PartialEq, Eq, Structural)]
pub struct LatLutGenParams {
    pub face_num: u32,
    pub width: u32,
    pub height: u32,
}

/// What the latitude pass is started with.
#[derive(Clone, Copy, Debug, PartialEq, Eq, Structural)]
pub struct LatLutPass {
    pub params: LatLutGenParams,
    pub groups_x: u32,
    pub groups_y: u32,
}

/// What a pass from one image to another of the same size is started
/// with; the slope pass and the normal pass are of this kind.
#[derive(Clone, Copy, Debug, PartialEq, Eq, Structural)]
pub struct ImagePass {
    pub width: u32,
    pub height: u32,
    pub groups_x: u32,
    pub groups_y: u32,
}

/// What the classification pass is started with.
#[derive(Debug, PartialEq)]
pub struct MaterialPass {
    pub width: u32,
    pub height: u32,
    pub tables: MaterialTables,
    pub groups_x: u32,
    pub groups_y: u32,
}

/// The layout of the buffer that a result image is copied into.
#[derive(Clone, Copy, Debug, PartialEq, Eq, Structural)]
pub struct Readback {
    pub bytes_per_row: u32,
    pub rows: u32,
    pub size: u32,
}

/// The number of tiles of `tile` pixels that cover `pixels` pixels.
pub open spec fn tiles(pixels: int, tile: int) -> int {
    (pixels + tile - 1) / tile
}

/// The number of tiles of `tile` pixels that cover `pixels` pixels.
pub fn tile_count(pixels: u32, tile: u32) -> (count: u32)
    requires
        tile > 0,
    ensures
        count == tiles(pixels as int, tile as int),
{
    let whole: u32 = pixels / tile;
    let rest: u32 = pixels % tile;
    proof {
        lemma_tiles_split(pixels as int, tile as int);
        vstd::arithmetic::div_mod::lemma_fundamental_div_mod(pixels as int, tile as int);
        assert(whole <= tile * whole) by (nonlinear_arith)
            requires
                tile >= 1,
                whole >= 0,
        ;
    }
    if rest == 0 {
        whole
    } else {
        whole + 1
    }
}

/// The number of work groups along each side of an image.
pub fn workgroups(size: Extent) -> (groups: (u32, u32))
    ensures
        groups.0 == tiles(size.width as int, WORKGROUP_SIZE as int),
        groups.1 == tiles(size.height as int, WORKGROUP_SIZE as int),
{
    (tile_count(size.width, WORKGROUP_SIZE), tile_count(size.height, WORKGROUP_SIZE))
}

impl LatLutGenParams {
    /// The three words of the block.
    pub open spec fn words(&self) -> Seq<u32> {
        seq![self.face_num, self.width, self.height]
    }

    /// A parameter block.
    pub fn new(face_num: u32, width: u32, height: u32) -> (params: LatLutGenParams)
        ensures
            params == (LatLutGenParams { face_num, width, height }),
    {
        LatLutGenParams { face_num, width, height }
    }

    /// The block as it goes into the uniform buffer: the face number, the
    /// width and the height, four bytes each, in the byte order of the
    /// machine.
    pub fn to_bytes(&self) -> (bytes: Vec<u8>)
        ensures
            bytes@.len() == LATLUT_PARAMS_SIZE,
            bytes_hold_words(bytes@, self.words()),
    {
        let mut words: Vec<u32> = Vec::new();
        words.push(self.face_num);
        words.push(self.width);
        words.push(self.height);
        assert(words@ == self.words());
        words_to_bytes(&words)
    }
}

/// Plans the latitude pass for the face called `face` and a result of
/// `width` by `height` pixels.
pub fn plan_latlut_pass(face: &str, width: u32, height: u32) -> (plan: Result<LatLutPass, Error>)
    ensures
        match plan {
            Ok(p) => {
                &&& cubemap_number_at(face@, p.params.face_num as int)
                &&& p.params.width == width
                &&& p.params.height == height
                &&& p.groups_x == tiles(width as int, WORKGROUP_SIZE as int)
                &&& p.groups_y == tiles(height as int, WORKGROUP_SIZE as int)
            },
            Err(e) => e == Error::InvalidFaceIndex && forall|m: int|
                0 <= m < 6 ==> cubemap_name_of(m) != face@,
        },
{
    match face_to_num(face) {
        Err(e) => Err(e),
        Ok(face_num) => {
            let groups = workgroups(Extent { width, height });
            Ok(
                LatLutPass {
                    params: LatLutGenParams::new(face_num, width, height),
                    groups_x: groups.0,
                    groups_y: groups.1,
                },
            )
        },
    }
}

/// Plans a pass that reads the height map and writes an image of the same
/// size.
pub fn plan_image_pass(heightmap: Extent) -> (plan: ImagePass)
    ensures
        plan.width == heightmap.width,
        plan.height == heightmap.height,
        plan.groups_x == tiles(heightmap.width as int, WORKGROUP_SIZE as int),
        plan.groups_y == tiles(heightmap.height as int, WORKGROUP_SIZE as int),
{
    let groups = workgroups(heightmap);
    ImagePass {
        width: heightmap.width,
        height: heightmap.height,
        groups_x: groups.0,
        groups_y: groups.1,
    }
}

/// Whether the five inputs of the classification pass have one size.
pub open spec fn same_size(
    materialmap: Extent,
    heightmap: Extent,
    latlut: Extent,
    normalmap: Extent,
    slopemap: Extent,
) -> bool {
    materialmap == heightmap && latlut == heightmap && normalmap == heightmap && slopemap
        == heightmap
}

/// Plans the classification pass. Inputs of differing size are refused
/// before any table is built, whatever the materials are; inputs of one
/// size always give a plan.
pub fn plan_material_pass(
    materialmap: Extent,
    heightmap: Extent,
    latlut: Extent,
    normalmap: Extent,
    slopemap: Extent,
    materials: &PlanetMaterial,
    colors: &OreColors,
) -> (plan: Result<MaterialPass, Error>)
    requires
        same_size(materialmap, heightmap, latlut, normalmap, slopemap) ==> materials.gpu_ready(
            *colors,
        ),
    ensures
        match plan {
            Ok(p) => {
                &&& same_size(materialmap, heightmap, latlut, normalmap, slopemap)
                &&& p.width == heightmap.width
                &&& p.height == heightmap.height
                &&& p.tables.built_from(*materials, *colors)
                &&& p.groups_x == tiles(heightmap.width as int, WORKGROUP_SIZE as int)
                &&& p.groups_y == tiles(heightmap.height as int, WORKGROUP_SIZE as int)
            },
            Err(e) => {
                &&& !same_size(materialmap, heightmap, latlut, normalmap, slopemap)
                &&& e == Error::DimensionMismatch
            },
        },
{
    let width = heightmap.width;
    let height = heightmap.height;
    if latlut.width != width || latlut.height != height || normalmap.width != width
        || normalmap.height != height || materialmap.width != width || materialmap.height
        != height || slopemap.width != width || slopemap.height != height {
        return Err(Error::DimensionMismatch);
    }
    let groups = workgroups(heightmap);
    Ok(
        MaterialPass {
            width,
            height,
            tables: MaterialTables::from_materials(materials, colors),
            groups_x: groups.0,
            groups_y: groups.1,
        },
    )
}

/// The bytes of one row of an image of four bytes per pixel, where that
/// number fits 32 bits.
pub fn row_bytes(width: u32) -> (bytes: Option<u32>)
    ensures
        bytes == if BYTES_PER_PIXEL * width <= u32::MAX {
            Some((BYTES_PER_PIXEL * width) as u32)
        } else {
            None::<u32>
        },
{
    if width <= u32::MAX / BYTES_PER_PIXEL {
        Some(BYTES_PER_PIXEL * width)
    } else {
        None
    }
}

/// The layout of the buffer that an image of the given size is copied
/// into, row after row without padding; `None` where the length of a row
/// or the size of the buffer does not fit 32 bits.
pub fn plan_readback(size: Extent) -> (plan: Option<Readback>)
    ensures
        plan == if BYTES_PER_PIXEL * size.width <= u32::MAX && BYTES_PER_PIXEL * size.width
            * size.height <= u32::MAX {
            Some(
                Readback {
                    bytes_per_row: (BYTES_PER_PIXEL * size.width) as u32,
                    rows: size.height,
                    size: (BYTES_PER_PIXEL * size.width * size.height) as u32,
                },
            )
        } else {
            None::<Readback>
        },
{
    match row_bytes(size.width) {
        None => None,
        Some(bytes_per_row) => {
            assert(bytes_per_row * size.height <= 0x1_0000_0000 * 0x1_0000_0000)
                by (nonlinear_arith)
                requires
                    0 <= bytes_per_row <= 0x1_0000_0000,
                    0 <= size.height <= 0x1_0000_0000,
            ;
            let total: u128 = bytes_per_row as u128 * size.height as u128;
            if total > u32::MAX as u128 {
                None
            } else {
                Some(Readback { bytes_per_row, rows: size.height, size: total as u32 })
            }
        },
    }
}

proof fn lemma_tiles_split(pixels: int, tile: int)
    requires
        pixels >= 0,
        tile > 0,
    ensures
        tiles(pixels, tile) == if pixels % tile == 0 {
            pixels / tile
        } else {
            pixels / tile + 1
        },
{
    let q = pixels / tile;
    let r = pixels % tile;
    assert(pixels == tile * q + r) by {
        vstd::arithmetic::div_mod::lemma_fundamental_div_mod(pixels, tile);
    }
    if r == 0 {
        vstd::arithmetic::div_mod::lemma_fundamental_div_mod_converse(
            pixels + tile - 1,
            tile,
            q,
            tile - 1,
        );
    } else {
        assert(tile * (q + 1) == tile * q + tile) by (nonlinear_arith);
        assert((q + 1) * tile == tile * (q + 1)) by (nonlinear_arith);
        vstd::arithmetic::div_mod::lemma_fundamental_div_mod_converse(
            pixels + tile - 1,
            tile,
            q + 1,
            r - 1,
        );
    }
}

/// The tiles cover the pixels and none of them is spare: the count is the
/// least whose tiles reach past the last pixel.
pub proof fn lemma_tiles_cover(pixels: int, tile: int)
    requires
        pixels >= 0,
        tile > 0,
    ensures
        tiles(pixels, tile) * tile >= pixels,
        (tiles(pixels, tile) - 1) * tile < pixels,
        tiles(pixels, tile) >= 0,
{
    lemma_tiles_split(pixels, tile);
    let q = pixels / tile;
    let r = pixels % tile;
    vstd::arithmetic::div_mod::lemma_fundamental_div_mod(pixels, tile);
    assert(q * tile == tile * q) by (nonlinear_arith);
    assert((q + 1) * tile == tile * q + tile) by (nonlinear_arith);
    assert((q - 1) * tile == tile * q - tile) by (nonlinear_arith);
    assert(q >= 0) by (nonlinear_arith)
        requires
            pixels >= 0,
            tile > 0,
            q == pixels / tile,
    ;
}

} // verus!
