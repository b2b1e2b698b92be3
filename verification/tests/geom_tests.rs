use nextgen::error::Error;
use nextgen::faces::face_axes;
use nextgen::data::Vec2;
use nextgen::geom::{build_grid, build_plane, grid_is_small, Box, FaceGrid, GridVertex};
use nextgen::scalar::Scalar;

fn s(x: f32) -> Scalar {
    Scalar::from_bits(x.to_bits())
}

fn f(x: Scalar) -> f32 {
    f32::from_bits(x.to_bits())
}

#[test]
fn one_cell_has_four_vertices_and_two_triangles_on_every_face() {
    let b = Box::new(s(1.0), s(2.0), s(3.0), 1, 1, 1);
    assert!(b.grid_is_small());
    for n in 0..6 {
        let plane = b.get_face_mesh(n).unwrap();
        assert_eq!(plane.grid.vertices.len(), 4);
        assert_eq!(plane.grid.indices.len(), 6);
        assert_eq!(plane.grid.indices, vec![0, 2, 1, 2, 3, 1]);
        assert_eq!(plane.grid.material_index, n);
    }
}

#[test]
fn vertices_come_row_by_row() {
    let grid = build_grid(2, 1, 4);
    assert_eq!(
        grid.vertices,
        vec![
            GridVertex { col: 0, row: 0 },
            GridVertex { col: 1, row: 0 },
            GridVertex { col: 2, row: 0 },
            GridVertex { col: 0, row: 1 },
            GridVertex { col: 1, row: 1 },
            GridVertex { col: 2, row: 1 },
        ]
    );
    assert_eq!(grid.material_index, 4);
}

#[test]
fn triangles_of_a_two_by_two_grid() {
    let grid = build_grid(2, 2, 0);
    assert_eq!(grid.vertices.len(), 9);
    assert_eq!(
        grid.indices,
        vec![
            0, 3, 1, 3, 4, 1, // cell (0, 0)
            1, 4, 2, 4, 5, 2, // cell (1, 0)
            3, 6, 4, 6, 7, 4, // cell (0, 1)
            4, 7, 5, 7, 8, 5, // cell (1, 1)
        ]
    );
}

#[test]
fn grid_counts_follow_the_cell_counts() {
    for (gx, gy) in [(1u32, 1u32), (1, 5), (5, 1), (3, 4), (16, 16), (7, 0), (0, 7), (0, 0)] {
        let grid = build_grid(gx, gy, 0);
        assert_eq!(grid.vertices.len() as u32, (gx + 1) * (gy + 1));
        assert_eq!(grid.indices.len() as u32, 6 * gx * gy);
        assert_eq!(grid.indices.len() % 3, 0);
        assert!(grid.indices.iter().all(|i| (*i as usize) < grid.vertices.len()));
        for (k, v) in grid.vertices.iter().enumerate() {
            assert_eq!(v.col, k as u32 % (gx + 1));
            assert_eq!(v.row, k as u32 / (gx + 1));
        }
    }
}

#[test]
fn every_cell_gets_its_two_triangles() {
    let (gx, gy) = (5u32, 3u32);
    let grid = build_grid(gx, gy, 0);
    for iy in 0..gy {
        for xi in 0..gx {
            let a = xi + (gx + 1) * iy;
            let b = xi + (gx + 1) * (iy + 1);
            let c = (xi + 1) + (gx + 1) * (iy + 1);
            let d = (xi + 1) + (gx + 1) * iy;
            let at = (6 * (gx * iy + xi)) as usize;
            assert_eq!(&grid.indices[at..at + 6], &[a, b, d, b, c, d]);
        }
    }
}

#[test]
fn grid_without_cells_has_vertices_but_no_triangles() {
    let grid = build_grid(0, 3, 0);
    assert_eq!(grid.vertices.len(), 4);
    assert!(grid.indices.is_empty());
    let grid = build_grid(0, 0, 0);
    assert_eq!(grid.vertices, vec![GridVertex { col: 0, row: 0 }]);
    assert!(grid.indices.is_empty());
}

#[test]
fn faces_take_their_extents_from_the_box() {
    let b = Box::new(s(1.0), s(2.0), s(3.0), 9, 4, 5);
    let expected = [
        (3.0f32, 2.0f32, 1.0f32),
        (3.0, 2.0, -1.0),
        (1.0, 3.0, 2.0),
        (1.0, 3.0, -2.0),
        (1.0, 2.0, 3.0),
        (1.0, 2.0, -3.0),
    ];
    for (n, (w, h, d)) in expected.iter().enumerate() {
        let plane = b.get_face_mesh(n).unwrap();
        assert_eq!(f(plane.width), *w);
        assert_eq!(f(plane.height), *h);
        assert_eq!(f(plane.depth), *d);
        assert_eq!(plane.normal_positive, *d > 0.0);
        assert_eq!(plane.axes, face_axes(n).unwrap());
        assert_eq!(plane.grid_x, 5);
        assert_eq!(plane.grid_y, 4);
        assert_eq!(plane.grid.vertices.len(), 30);
        assert_eq!(plane.grid.indices.len(), 120);
    }
}

#[test]
fn negative_extents_turn_the_faces_inward() {
    let b = Box::new(s(-1.0), s(-2.0), s(-3.0), 1, 1, 1);
    let depths = [-1.0f32, 1.0, -2.0, 2.0, -3.0, 3.0];
    for (n, d) in depths.iter().enumerate() {
        let plane = b.get_face_mesh(n).unwrap();
        assert_eq!(f(plane.depth), *d);
        assert_eq!(plane.normal_positive, *d > 0.0);
    }
}

#[test]
fn a_face_of_depth_zero_has_a_negative_normal() {
    let b = Box::new(s(0.0), s(0.0), s(0.0), 1, 1, 1);
    for n in 0..6 {
        assert!(!b.get_face_mesh(n).unwrap().normal_positive);
    }
    let plane = build_plane("pz", s(1.0), s(1.0), s(f32::NAN), 1, 1, 4).unwrap();
    assert!(!plane.normal_positive);
}

#[test]
fn invalid_face_index_is_an_error() {
    let b = Box::new(s(1.0), s(1.0), s(1.0), 1, 1, 1);
    assert_eq!(b.get_face_mesh(6), Err(Error::InvalidFaceIndex));
    assert_eq!(b.get_face_mesh(usize::MAX), Err(Error::InvalidFaceIndex));
}

#[test]
fn invalid_direction_is_an_error() {
    assert_eq!(build_plane("up", s(1.0), s(1.0), s(1.0), 1, 1, 0), Err(Error::InvalidFaceIndex));
    assert_eq!(build_plane("", s(1.0), s(1.0), s(1.0), 1, 1, 0), Err(Error::InvalidFaceIndex));
}

#[test]
fn build_plane_keeps_what_it_is_given() {
    let plane = build_plane("ny", s(4.0), s(5.0), s(-6.0), 2, 3, 17).unwrap();
    assert_eq!(plane.axes, face_axes(3).unwrap());
    assert_eq!(f(plane.width), 4.0);
    assert_eq!(f(plane.height), 5.0);
    assert_eq!(f(plane.depth), -6.0);
    assert!(!plane.normal_positive);
    assert_eq!(plane.grid_x, 2);
    assert_eq!(plane.grid_y, 3);
    assert_eq!(plane.grid.material_index, 17);
    assert_eq!(plane.grid.vertices.len(), 12);
    assert_eq!(plane.grid.indices.len(), 36);
}

#[test]
fn to_mesh_data_gives_the_six_faces_in_order() {
    let b = Box::new(s(1.0), s(2.0), s(3.0), 2, 2, 2);
    let faces = b.to_mesh_data();
    assert_eq!(faces.len(), 6);
    for (n, face) in faces.iter().enumerate() {
        assert_eq!(*face, b.get_face_mesh(n).unwrap());
        assert_eq!(face.grid.material_index, n);
    }
}

#[test]
fn grid_is_small_knows_the_limit_of_32_bits() {
    assert!(Box::new(s(1.0), s(1.0), s(1.0), 0, 65534, 65535).grid_is_small());
    assert!(!Box::new(s(1.0), s(1.0), s(1.0), 0, 65535, 65535).grid_is_small());
    assert!(!Box::new(s(1.0), s(1.0), s(1.0), 0, u32::MAX, u32::MAX).grid_is_small());
    assert!(!Box::new(s(1.0), s(1.0), s(1.0), 0, 0, u32::MAX).grid_is_small());
    assert!(Box::new(s(1.0), s(1.0), s(1.0), u32::MAX, 0, u32::MAX - 1).grid_is_small());
}

#[test]
fn texture_coordinates_are_the_machines_grid_fractions() {
    for (gx, gy) in [(1u32, 1u32), (2, 2), (3, 5), (4, 6), (10, 7), (16, 16), (100, 3), (255, 256)] {
        let grid = build_grid(gx, gy, 0);
        let uvs = grid.texture_coordinates(gx, gy).unwrap();
        assert_eq!(uvs.len(), grid.vertices.len());
        for (k, vertex) in grid.vertices.iter().enumerate() {
            let u = vertex.col as f32 / gx as f32;
            let v = vertex.row as f32 / gy as f32;
            assert_eq!(uvs[k], Vec2 { x: s(u), y: s(v) }, "{} of {} by {}", k, gx, gy);
        }
    }
}

#[test]
fn texture_coordinates_of_one_cell_are_the_corners_of_the_unit_square() {
    let grid = build_grid(1, 1, 0);
    assert_eq!(
        grid.texture_coordinates(1, 1),
        Some(vec![
            Vec2 { x: s(0.0), y: s(0.0) },
            Vec2 { x: s(1.0), y: s(0.0) },
            Vec2 { x: s(0.0), y: s(1.0) },
            Vec2 { x: s(1.0), y: s(1.0) },
        ])
    );
}

#[test]
fn texture_coordinates_need_cells_along_both_sides() {
    assert_eq!(build_grid(0, 3, 0).texture_coordinates(0, 3), None);
    assert_eq!(build_grid(3, 0, 0).texture_coordinates(3, 0), None);
    assert_eq!(build_grid(0, 0, 0).texture_coordinates(0, 0), None);
    assert_eq!(build_grid(1, 1, 0).texture_coordinates(16777216, 1), None);
    assert_eq!(build_grid(1, 1, 0).texture_coordinates(1, 16777216), None);
    assert!(build_grid(1, 1, 0).texture_coordinates(16777215, 16777215).is_some());
}

#[test]
fn texture_coordinates_need_every_vertex_on_the_grid() {
    let grid = FaceGrid {
        vertices: vec![GridVertex { col: 0, row: 0 }, GridVertex { col: 3, row: 1 }],
        indices: vec![],
        material_index: 0,
    };
    assert_eq!(grid.texture_coordinates(2, 2), None);
    assert_eq!(grid.texture_coordinates(3, 0), None);
    assert_eq!(
        grid.texture_coordinates(3, 1),
        Some(vec![Vec2 { x: s(0.0), y: s(0.0) }, Vec2 { x: s(1.0), y: s(1.0) }])
    );
    assert_eq!(
        grid.texture_coordinates(6, 4),
        Some(vec![Vec2 { x: s(0.0), y: s(0.0) }, Vec2 { x: s(0.5), y: s(0.25) }])
    );
}

#[test]
fn free_grid_size_check_agrees_with_the_box() {
    assert!(grid_is_small(65535, 65534));
    assert!(!grid_is_small(65535, 65535));
    assert!(grid_is_small(0, u32::MAX - 1));
    assert!(!grid_is_small(0, u32::MAX));
}
