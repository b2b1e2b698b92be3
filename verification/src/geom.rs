//! Cube faces as vertex grids.
//!
//! A face with `grid_x` by `grid_y` cells has `(grid_x + 1) * (grid_y + 1)`
//! vertices, stored row by row. Every cell is split into two triangles
//! along one diagonal. What is built here is the whole of a face but the
//! arithmetic that places a vertex: which coordinate each grid direction
//! feeds, the three extents with their signs, the side the normal points
//! to, the vertices in scan order and the triangle indices.

use vstd::prelude::*;
use vstd::arithmetic::div_mod::lemma_fundamental_div_mod_converse;
use crate::error::Error;
use crate::faces::{face_axes, face_axes_of, face_index, face_name, face_number_at, FaceAxes};
use crate::data::Vec2;
use crate::scalar::{Scalar, ZERO_BITS};
use crate::share::{is_whole, share, share_of};

verus! {

/// A vertex by its place in the grid. Its texture coordinates are
/// `col / grid_x` and `row / grid_y`; see [`FaceGrid::texture_coordinates`].
#[derive(Clone, Copy, Debug, PartialEq, Eq, Structural)]
pub struct GridVertex {
    pub col: u32,
    pub row: u32,
}

/// The vertices and triangles of one face.
#[derive(Debug, PartialEq)]
pub struct FaceGrid {
    pub vertices: Vec<GridVertex>,
    pub indices: Vec<u32>,
    pub material_index: usize,
}

/// One face of a box, ready for its vertices to be placed.
#[derive(Debug, PartialEq)]
pub struct FacePlane {
    /// The coordinate that each term of a vertex position goes to.
    pub axes: FaceAxes,
    /// The extent along the grid's first direction.
    pub width: Scalar,
    /// The extent along the grid's second direction.
    pub height: Scalar,
    /// Twice the signed distance of the face from the centre.
    pub depth: Scalar,
    /// Whether the normal points to the positive side: it does where the
    /// depth is greater than zero.
    pub normal_positive: bool,
    pub grid_x: u32,
    pub grid_y: u32,
    pub grid: FaceGrid,
}

/// A box by its three extents and the number of cells along each.
#[derive(Clone, Copy, Debug, PartialEq, Eq, Structural)]
pub struct Box {
    pub size_x: Scalar,
    pub size_y: Scalar,
    pub size_z: Scalar,
    pub segments_width: u32,
    pub segments_height: u32,
    pub segments_depth: u32,
}

/// Whether the vertices of a grid can be numbered in 32 bits.
pub open spec fn grid_fits(grid_x: u32, grid_y: u32) -> bool {
    (grid_x + 1) * (grid_y + 1) <= u32::MAX
}

/// The vertex that corner `pos` of a triangle pair refers to, for the
/// cell in column `xi` and row `iy`. The two triangles are lower left,
/// upper left, lower right and upper left, upper right, lower right,
/// where "upper" is the next row.
pub open spec fn cell_corner(grid_x: int, xi: int, iy: int, pos: int) -> int {
    let a = xi + (grid_x + 1) * iy;
    let b = xi + (grid_x + 1) * (iy + 1);
    let c = (xi + 1) + (grid_x + 1) * (iy + 1);
    let d = (xi + 1) + (grid_x + 1) * iy;
    if pos == 0 {
        a
    } else if pos == 1 {
        b
    } else if pos == 2 {
        d
    } else if pos == 3 {
        b
    } else if pos == 4 {
        c
    } else {
        d
    }
}

/// The `k`-th triangle index of a grid: cells are taken row by row, six
/// indices each.
pub open spec fn grid_index(grid_x: int, k: int) -> int {
    cell_corner(grid_x, (k / 6) % grid_x, (k / 6) / grid_x, k % 6)
}

/// The `k`-th vertex of a grid.
pub open spec fn grid_vertex(grid_x: int, k: int) -> GridVertex {
    GridVertex { col: (k % (grid_x + 1)) as u32, row: (k / (grid_x + 1)) as u32 }
}

impl FaceGrid {
    /// Whether this is the grid of `grid_x` by `grid_y` cells for the
    /// material `material_index`.
    pub open spec fn is_grid(&self, grid_x: u32, grid_y: u32, material_index: usize) -> bool {
        &&& self.material_index == material_index
        &&& self.vertices@.len() == (grid_x + 1) * (grid_y + 1)
        &&& self.indices@.len() == 6 * (grid_x * grid_y)
        &&& forall|k: int|
            0 <= k < self.vertices@.len() ==> #[trigger] self.vertices@[k] == grid_vertex(
                grid_x as int,
                k,
            )
        &&& forall|k: int|
            0 <= k < self.indices@.len() ==> #[trigger] self.indices@[k] == grid_index(
                grid_x as int,
                k,
            )
    }

    /// Whether every triangle index refers to a vertex and the indices
    /// come in threes.
    pub open spec fn well_formed(&self) -> bool {
        &&& self.indices@.len() % 3 == 0
        &&& forall|k: int| 0 <= k < self.indices@.len() ==> self.indices@[k] < self.vertices@.len()
    }

    /// Whether a texture coordinate can be given to every vertex: both
    /// cell counts are positive and below `2^24`, and no vertex lies
    /// beyond the last column or row.
    pub open spec fn has_texture_coordinates(&self, grid_x: u32, grid_y: u32) -> bool {
        &&& is_whole(grid_x as int)
        &&& is_whole(grid_y as int)
        &&& forall|k: int|
            0 <= k < self.vertices@.len() ==> (#[trigger] self.vertices@[k]).col <= grid_x
                && self.vertices@[k].row <= grid_y
    }

    /// The texture coordinates of the vertices, in their order: the column
    /// of a vertex as its share of `grid_x` and its row as its share of
    /// `grid_y`, each the single-precision number nearest to the share.
    /// `None` where not every vertex can be given one.
    pub fn texture_coordinates(&self, grid_x: u32, grid_y: u32) -> (uvs: Option<Vec<Vec2>>)
        ensures
            uvs is Some <==> self.has_texture_coordinates(grid_x, grid_y),
            uvs matches Some(out) ==> {
                &&& out@.len() == self.vertices@.len()
                &&& forall|k: int|
                    0 <= k < out@.len() ==> #[trigger] out@[k] == (Vec2 {
                        x: share_of(self.vertices@[k].col as int, grid_x as int),
                        y: share_of(self.vertices@[k].row as int, grid_y as int),
                    })
            },
    {
        if grid_x == 0 || grid_x >= 0x100_0000 || grid_y == 0 || grid_y >= 0x100_0000 {
            return None;
        }
        let mut out: Vec<Vec2> = Vec::new();
        let mut k: usize = 0;
        while k < self.vertices.len()
            invariant
                k <= self.vertices@.len(),
                is_whole(grid_x as int),
                is_whole(grid_y as int),
                out@.len() == k,
                forall|j: int|
                    0 <= j < k ==> (#[trigger] self.vertices@[j]).col <= grid_x
                        && self.vertices@[j].row <= grid_y,
                forall|j: int|
                    0 <= j < k ==> #[trigger] out@[j] == (Vec2 {
                        x: share_of(self.vertices@[j].col as int, grid_x as int),
                        y: share_of(self.vertices@[j].row as int, grid_y as int),
                    }),
            decreases self.vertices@.len() - k,
        {
            let vertex = self.vertices[k];
            if vertex.col > grid_x || vertex.row > grid_y {
                return None;
            }
            out.push(Vec2 { x: share(vertex.col, grid_x), y: share(vertex.row, grid_y) });
            k = k + 1;
        }
        Some(out)
    }
}

/// Every vertex of a grid whose cell counts are positive and below `2^24`
/// has texture coordinates.
pub proof fn lemma_grid_has_texture_coordinates(
    grid: FaceGrid,
    grid_x: u32,
    grid_y: u32,
    material_index: usize,
)
    requires
        grid.is_grid(grid_x, grid_y, material_index),
        is_whole(grid_x as int),
        is_whole(grid_y as int),
    ensures
        grid.has_texture_coordinates(grid_x, grid_y),
{
    let gx = grid_x as int;
    let gy = grid_y as int;
    assert forall|k: int| 0 <= k < grid.vertices@.len() implies (#[trigger] grid.vertices@[k]).col
        <= grid_x && grid.vertices@[k].row <= grid_y by {
        assert(grid.vertices@[k] == grid_vertex(gx, k));
        assert(0 <= k % (gx + 1) <= gx);
        assert(k / (gx + 1) <= gy) by (nonlinear_arith)
            requires
                0 <= k < (gx + 1) * (gy + 1),
                gx >= 0,
        ;
        assert(k / (gx + 1) >= 0) by (nonlinear_arith)
            requires
                0 <= k,
                gx >= 0,
        ;
    }
}

/// Whether the vertices of a grid can be numbered in 32 bits.
pub fn grid_is_small(grid_x: u32, grid_y: u32) -> (small: bool)
    ensures
        small == grid_fits(grid_x, grid_y),
{
    let across: u64 = grid_x as u64 + 1;
    let along: u64 = grid_y as u64 + 1;
    assert(across * along <= 0x1_0000_0000 * 0x1_0000_0000) by (nonlinear_arith)
        requires
            0 <= across <= 0x1_0000_0000,
            0 <= along <= 0x1_0000_0000,
    ;
    let total: u128 = across as u128 * along as u128;
    total <= u32::MAX as u128
}

/// `a * b`, kept apart from the arithmetic around it.
#[verifier::opaque]
spec fn product(a: int, b: int) -> int {
    a * b
}

proof fn lemma_product(a: int, b: int)
    ensures
        product(a, b) == a * b,
        product(a, 0) == 0,
        product(a, b + 1) == product(a, b) + a,
        a >= 0 && b >= 0 ==> product(a, b) >= 0,
{
    reveal(product);
    assert(a * (b + 1) == a * b + a) by (nonlinear_arith);
    assert(a >= 0 && b >= 0 ==> a * b >= 0) by (nonlinear_arith);
}

proof fn lemma_product_grows(a: int, b: int, c: int)
    requires
        a >= 0,
        b <= c,
    ensures
        product(a, b) <= product(a, c),
{
    reveal(product);
    assert(a * b <= a * c) by (nonlinear_arith)
        requires
            a >= 0,
            b <= c,
    ;
}

/// The column and row of the `k`-th of the items that lie `width` to a
/// row.
proof fn lemma_row_and_column(width: int, row: int, col: int)
    requires
        0 <= col < width,
        0 <= row,
    ensures
        (product(width, row) + col) % width == col,
        (product(width, row) + col) / width == row,
{
    reveal(product);
    assert(width * row == row * width) by (nonlinear_arith);
    lemma_fundamental_div_mod_converse(width * row + col, width, row, col);
}

/// The grid of `grid_x` by `grid_y` cells: the vertices row by row, and
/// for every cell, row by row, its two triangles.
pub fn build_grid(grid_x: u32, grid_y: u32, material_index: usize) -> (grid: FaceGrid)
    requires
        grid_fits(grid_x, grid_y),
    ensures
        grid.is_grid(grid_x, grid_y, material_index),
        grid.well_formed(),
{
    let ghost gx = grid_x as int;
    let ghost gy = grid_y as int;
    let ghost total = product(gx + 1, gy + 1);
    proof {
        lemma_product(gx + 1, gy + 1);
        lemma_product(gx + 1, gy);
        lemma_product(gx + 1, 0);
        lemma_product(gx, 0);
        lemma_product_grows(gx + 1, 0, gy);
        assert(grid_y + 1 <= (grid_x + 1) * (grid_y + 1)) by (nonlinear_arith);
    }
    let grid_x1: u32 = grid_x + 1;
    let grid_y1: u32 = grid_y + 1;
    let mut vertices: Vec<GridVertex> = Vec::new();
    let mut indices: Vec<u32> = Vec::new();
    let mut row_base: u32 = 0;
    let mut iy: u32 = 0;
    while iy < grid_y1
        invariant
            iy <= grid_y1,
            grid_x1 == grid_x + 1,
            grid_y1 == grid_y + 1,
            gx == grid_x,
            gy == grid_y,
            total == product(gx + 1, gy + 1),
            total <= u32::MAX,
            row_base == product(gx + 1, iy as int),
            vertices@.len() == row_base,
            iy <= gy ==> indices@.len() == 6 * product(gx, iy as int),
            iy > gy ==> indices@.len() == 6 * product(gx, gy),
            forall|k: int|
                0 <= k < vertices@.len() ==> #[trigger] vertices@[k] == grid_vertex(gx, k),
            forall|k: int|
                0 <= k < indices@.len() ==> #[trigger] indices@[k] == grid_index(gx, k)
                    && indices@[k] < total,
        decreases grid_y1 - iy,
    {
        proof {
            lemma_product(gx + 1, iy as int);
            lemma_product(gx, iy as int);
            lemma_product_grows(gx + 1, iy + 1, gy + 1);
        }
        let mut xi: u32 = 0;
        while xi < grid_x1
            invariant
                xi <= grid_x1,
                iy < grid_y1,
                grid_x1 == grid_x + 1,
                grid_y1 == grid_y + 1,
                gx == grid_x,
                gy == grid_y,
                total == product(gx + 1, gy + 1),
                total <= u32::MAX,
                row_base == product(gx + 1, iy as int),
                row_base + grid_x1 == product(gx + 1, iy + 1),
                row_base + grid_x1 <= total,
                product(gx, iy as int) >= 0,
                vertices@.len() == row_base + xi,
                iy < gy && xi <= gx ==> indices@.len() == 6 * (product(gx, iy as int) + xi),
                iy < gy && xi > gx ==> indices@.len() == 6 * (product(gx, iy as int) + gx),
                iy >= gy ==> indices@.len() == 6 * product(gx, gy),
                forall|k: int|
                0 <= k < vertices@.len() ==> #[trigger] vertices@[k] == grid_vertex(gx, k),
                forall|k: int|
                    0 <= k < indices@.len() ==> #[trigger] indices@[k] == grid_index(gx, k)
                        && indices@[k] < total,
            decreases grid_x1 - xi,
        {
            proof {
                lemma_row_and_column(gx + 1, iy as int, xi as int);
            }
            vertices.push(GridVertex { col: xi, row: iy });
            if iy != grid_y && xi != grid_x {
                proof {
                    lemma_row_and_column(gx, iy as int, xi as int);
                    lemma_product(gx + 1, iy as int);
                    lemma_product(gx + 1, iy + 1);
                    lemma_product_grows(gx + 1, iy + 2, gy + 1);
                }
                let a: u32 = xi + row_base;
                let b: u32 = xi + row_base + grid_x1;
                let c: u32 = xi + 1 + row_base + grid_x1;
                let d: u32 = xi + 1 + row_base;
                let ghost base = indices@.len() as int;
                let ghost cell = product(gx, iy as int) + xi;
                indices.push(a);
                indices.push(b);
                indices.push(d);
                indices.push(b);
                indices.push(c);
                indices.push(d);
                proof {
                    assert(base == 6 * cell);
                    assert(a == cell_corner(gx, xi as int, iy as int, 0));
                    assert(b == cell_corner(gx, xi as int, iy as int, 1));
                    assert(c == cell_corner(gx, xi as int, iy as int, 4));
                    assert(d == cell_corner(gx, xi as int, iy as int, 2));
                    assert forall|k: int| base <= k < base + 6 implies #[trigger] indices@[k]
                        == grid_index(gx, k) && indices@[k] < total by {
                        assert(k / 6 == cell);
                        assert(k % 6 == k - base);
                    }
                }
            }
            xi = xi + 1;
        }
        proof {
            lemma_product(gx, iy as int);
        }
        row_base = row_base + grid_x1;
        iy = iy + 1;
    }
    proof {
        lemma_product(gx, gy);
        lemma_product(gx + 1, gy + 1);
        let cells = product(gx, gy);
        assert(indices@.len() == 6 * cells);
        assert((6 * cells) % 3 == 0);
        assert(grid_x * grid_y == cells);
    }
    FaceGrid { vertices, indices, material_index }
}

/// A face named `dir` with the given extents: the grid of `grid_x` by
/// `grid_y` cells, the coordinates that the face's name stands for, and
/// the side its normal points to.
pub fn build_plane(
    dir: &str,
    width: Scalar,
    height: Scalar,
    depth: Scalar,
    grid_x: u32,
    grid_y: u32,
    material_index: usize,
) -> (plane: Result<FacePlane, Error>)
    requires
        grid_fits(grid_x, grid_y),
    ensures
        match plane {
            Ok(p) => {
                &&& exists|n: int| face_number_at(dir@, n) && p.axes == face_axes_of(n)
                &&& p.width == width
                &&& p.height == height
                &&& p.depth == depth
                &&& p.normal_positive == (Scalar { bits: ZERO_BITS }).less(depth)
                &&& p.grid_x == grid_x
                &&& p.grid_y == grid_y
                &&& p.grid.is_grid(grid_x, grid_y, material_index)
                &&& p.grid.well_formed()
            },
            Err(e) => e == Error::InvalidFaceIndex && forall|n: int|
                0 <= n < 6 ==> !face_number_at(dir@, n),
        },
{
    match face_index(dir) {
        Err(e) => Err(e),
        Ok(n) => {
            match face_axes(n) {
                Err(e) => Err(e),
                Ok(axes) => {
                    assert(face_number_at(dir@, n as int) && axes == face_axes_of(n as int));
                    let zero = Scalar::zero();
                    Ok(
                        FacePlane {
                            axes,
                            width,
                            height,
                            depth,
                            normal_positive: depth.gt(&zero),
                            grid_x,
                            grid_y,
                            grid: build_grid(grid_x, grid_y, material_index),
                        },
                    )
                },
            }
        },
    }
}

impl Box {
    /// The extent of face `n` along the grid's first direction.
    pub open spec fn face_width(&self, n: int) -> Scalar {
        if n == 0 || n == 1 {
            self.size_z
        } else {
            self.size_x
        }
    }

    /// The extent of face `n` along the grid's second direction.
    pub open spec fn face_height(&self, n: int) -> Scalar {
        if n == 2 || n == 3 {
            self.size_z
        } else {
            self.size_y
        }
    }

    /// The magnitude of the depth of face `n`: the extent of the box along
    /// the face's normal.
    pub open spec fn face_extent(&self, n: int) -> Scalar {
        if n == 0 || n == 1 {
            self.size_x
        } else if n == 2 || n == 3 {
            self.size_y
        } else {
            self.size_z
        }
    }

    /// Whether `plane` is face `n` of this box. The faces with an odd
    /// number lie on the negative side: their depth is the extent with
    /// its sign flipped. Every face has `segments_depth` by
    /// `segments_height` cells.
    pub open spec fn is_face(&self, n: int, plane: FacePlane) -> bool {
        &&& plane.axes == face_axes_of(n)
        &&& plane.width == self.face_width(n)
        &&& plane.height == self.face_height(n)
        &&& plane.depth.magnitude() == self.face_extent(n).magnitude()
        &&& plane.depth.negative() == if n % 2 == 0 {
            self.face_extent(n).negative()
        } else {
            !self.face_extent(n).negative()
        }
        &&& plane.normal_positive == (Scalar { bits: ZERO_BITS }).less(plane.depth)
        &&& plane.grid_x == self.segments_depth
        &&& plane.grid_y == self.segments_height
        &&& plane.grid.is_grid(self.segments_depth, self.segments_height, n as usize)
        &&& plane.grid.well_formed()
    }

    /// Whether the vertices of a face of this box can be numbered in 32
    /// bits.
    pub open spec fn fits(&self) -> bool {
        grid_fits(self.segments_depth, self.segments_height)
    }

    /// A box of the given extents and cell counts.
    pub fn new(
        size_x: Scalar,
        size_y: Scalar,
        size_z: Scalar,
        segments_width: u32,
        segments_height: u32,
        segments_depth: u32,
    ) -> (b: Box)
        ensures
            b == (Box {
                size_x,
                size_y,
                size_z,
                segments_width,
                segments_height,
                segments_depth,
            }),
    {
        Box { size_x, size_y, size_z, segments_width, segments_height, segments_depth }
    }

    /// Whether the vertices of a face of this box can be numbered in 32
    /// bits.
    pub fn grid_is_small(&self) -> (small: bool)
        ensures
            small == self.fits(),
    {
        grid_is_small(self.segments_depth, self.segments_height)
    }

    /// Face `n` of the box.
    pub fn get_face_mesh(&self, n: usize) -> (plane: Result<FacePlane, Error>)
        requires
            self.fits(),
        ensures
            n >= 6 <==> plane == Err::<FacePlane, Error>(Error::InvalidFaceIndex),
            n < 6 ==> plane is Ok && self.is_face(n as int, plane.unwrap()),
    {
        let x = match n {
            0 | 1 => self.size_z,
            _ => self.size_x,
        };
        let y = match n {
            2 | 3 => self.size_z,
            _ => self.size_y,
        };
        let z = match n {
            0 => self.size_x,
            1 => self.size_x.negated(),
            2 => self.size_y,
            3 => self.size_y.negated(),
            4 => self.size_z,
            _ => self.size_z.negated(),
        };
        match face_name(n) {
            Err(e) => Err(e),
            Ok(dir) => {
                proof {
                    crate::faces::lemma_face_round_trip(n as int);
                }
                let plane = build_plane(dir, x, y, z, self.segments_depth, self.segments_height, n);
                proof {
                    if plane is Ok {
                        let p = plane.unwrap();
                        let m = choose|m: int| face_number_at(dir@, m) && p.axes == face_axes_of(m);
                        assert(face_number_at(dir@, n as int));
                        if m < n {
                            assert(crate::faces::face_name_of(m) != dir@);
                        }
                        if n < m {
                            assert(crate::faces::face_name_of(n as int) != dir@);
                        }
                    } else {
                        assert(face_number_at(dir@, n as int));
                    }
                }
                plane
            },
        }
    }

    /// The six faces of the box, in the mesher's order.
    pub fn to_mesh_data(&self) -> (faces: Vec<FacePlane>)
        requires
            self.fits(),
        ensures
            faces@.len() == 6,
            forall|n: int| 0 <= n < 6 ==> self.is_face(n, faces@[n]),
    {
        let mut faces: Vec<FacePlane> = Vec::new();
        let mut i: usize = 0;
        while i < 6
            invariant
                i <= 6,
                self.fits(),
                faces@.len() == i,
                forall|n: int| 0 <= n < i ==> self.is_face(n, faces@[n]),
            decreases 6 - i,
        {
            match self.get_face_mesh(i) {
                Ok(plane) => {
                    faces.push(plane);
                },
                Err(_) => {},
            }
            i = i + 1;
        }
        faces
    }
}

/// A face with one cell has four vertices and two triangles; in general a
/// grid has one vertex per crossing and six indices per cell, and every
/// index refers to a vertex.
pub proof fn lemma_grid_counts(grid: FaceGrid, grid_x: u32, grid_y: u32, material_index: usize)
    requires
        grid.is_grid(grid_x, grid_y, material_index),
    ensures
        grid.vertices@.len() == (grid_x + 1) * (grid_y + 1),
        grid.indices@.len() == 6 * (grid_x * grid_y),
        grid_x == 1 && grid_y == 1 ==> grid.vertices@.len() == 4 && grid.indices@.len() == 6,
{
    if grid_x == 1 && grid_y == 1 {
        assert((grid_x + 1) * (grid_y + 1) == 4) by (nonlinear_arith)
            requires
                grid_x == 1,
                grid_y == 1,
        ;
        assert(grid_x * grid_y == 1) by (nonlinear_arith)
            requires
                grid_x == 1,
                grid_y == 1,
        ;
    }
}

/// The six indices of the cell in column `xi` and row `iy` stand
/// together, and they are the corners of the cell's two triangles.
pub proof fn lemma_cell_triangles(
    grid: FaceGrid,
    grid_x: u32,
    grid_y: u32,
    material_index: usize,
    xi: int,
    iy: int,
    pos: int,
)
    requires
        grid.is_grid(grid_x, grid_y, material_index),
        0 <= xi < grid_x,
        0 <= iy < grid_y,
        0 <= pos < 6,
    ensures
        0 <= 6 * (grid_x * iy + xi) + pos < grid.indices@.len(),
        grid.indices@[6 * (grid_x * iy + xi) + pos] == cell_corner(grid_x as int, xi, iy, pos),
{
    let gx = grid_x as int;
    let cell = gx * iy + xi;
    assert(gx * iy + xi < gx * grid_y) by (nonlinear_arith)
        requires
            0 <= xi < gx,
            0 <= iy < grid_y,
    ;
    assert(gx * iy >= 0) by (nonlinear_arith)
        requires
            gx >= 0,
            iy >= 0,
    ;
    assert(gx * iy == iy * gx) by (nonlinear_arith);
    lemma_fundamental_div_mod_converse(cell, gx, iy, xi);
    let k = 6 * cell + pos;
    assert(k / 6 == cell);
    assert(k % 6 == pos);
    assert(grid.indices@[k] == grid_index(gx, k));
}

} // verus!
