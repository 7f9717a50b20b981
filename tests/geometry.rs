use skin_editor::geometry::{
    body_grid, body_vertices, cuboid_3x12x4, cuboid_4x12x4, generate_line_indexes, grid_3x12x4,
    grid_4x12x4, head_grid, head_vertices,
};
use skin_editor::{generate_indexes, Position};

fn p(x: i32, y: i32, z: i32) -> Position {
    Position { x, y, z }
}

#[test]
fn cell_counts_of_each_shape() {
    assert_eq!(head_vertices().len(), 384 * 4);
    assert_eq!(body_vertices().len(), 352 * 4);
    assert_eq!(cuboid_4x12x4().len(), 224 * 4);
    assert_eq!(cuboid_3x12x4().len(), 192 * 4);
}

#[test]
fn head_front_starts_top_left_counter_clockwise() {
    let v = head_vertices();
    assert_eq!(v[0].position, p(-8, 8, 8));
    assert_eq!(v[1].position, p(-6, 8, 8));
    assert_eq!(v[2].position, p(-6, 6, 8));
    assert_eq!(v[3].position, p(-8, 6, 8));
    // Second cell of the first row.
    assert_eq!(v[4].position, p(-6, 8, 8));
    // First cell of the second row.
    assert_eq!(v[32].position, p(-8, 6, 8));
    assert!(v.iter().all(|x| x.color.a == 0 && x.color.r == 255));
}

#[test]
fn slim_arm_faces_are_centred() {
    let v = cuboid_3x12x4();
    assert_eq!(v[0].position, p(-3, 12, 4));
    // Left face starts after the 36 front cells.
    assert_eq!(v[36 * 4].position, p(3, 12, 4));
    assert_eq!(v[36 * 4 + 1].position, p(3, 12, 2));
}

#[test]
fn bottom_face_is_wound_the_other_way() {
    let v = cuboid_4x12x4();
    let first_bottom = (48 * 4 + 16) * 4;
    assert_eq!(v[first_bottom].position, p(-4, -12, -4));
    assert_eq!(v[first_bottom + 1].position, p(-4, -12, -2));
    assert_eq!(v[first_bottom + 2].position, p(-2, -12, -2));
    assert_eq!(v[first_bottom + 3].position, p(-2, -12, -4));
}

#[test]
fn generation_is_deterministic() {
    assert_eq!(head_vertices(), head_vertices());
    assert_eq!(cuboid_3x12x4(), cuboid_3x12x4());
}

#[test]
fn grids_have_one_segment_per_boundary() {
    // Head: six 8x8 faces, 9 + 9 segments each, two endpoints per segment.
    assert_eq!(head_grid().len(), 6 * 18 * 2);
    assert_eq!(body_grid().len(), 2 * (2 * (9 + 13) + 2 * (5 + 13) + 2 * (9 + 5)));
    assert_eq!(grid_4x12x4().len(), 2 * (4 * (5 + 13) + 2 * (5 + 5)));
    assert_eq!(grid_3x12x4().len(), 2 * (2 * (4 + 13) + 2 * (5 + 13) + 2 * (4 + 5)));
    let g = head_grid();
    assert_eq!(g[0].position, p(-8, 8, 8));
    assert_eq!(g[1].position, p(-8, -8, 8));
    assert_eq!(g[18].position, p(-8, 8, 8));
    assert_eq!(g[19].position, p(8, 8, 8));
    assert_eq!(g[0].color.a, 255);
}

#[test]
fn triangle_indexes_two_per_cell() {
    assert_eq!(generate_indexes(2), vec![0, 1, 2, 2, 3, 0, 4, 5, 6, 6, 7, 4]);
    assert!(generate_indexes(0).is_empty());
    let big = generate_indexes(16384);
    assert_eq!(big[big.len() - 2], 65535);
}

#[test]
fn line_indexes_count_up() {
    assert_eq!(generate_line_indexes(4), vec![0, 1, 2, 3]);
}
