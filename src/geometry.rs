use vstd::prelude::*;

use crate::atlas::lemma_row_col;
use crate::color::Color;
use crate::taxonomy::CubeSide;

verus! {

/// A point of model space, in sixteenths of a world unit (one texel is two
/// sixteenths, so that three-texel limbs stay centred on whole numbers).
#[derive(Copy, Clone, Debug, PartialEq, Eq, Structural)]
pub struct Position {
    pub x: i32,
    pub y: i32,
    pub z: i32,
}

/// A mesh vertex: where it is and the color of the cell it belongs to.
#[derive(Copy, Clone, Debug, PartialEq, Eq, Structural)]
pub struct Vertex {
    pub position: Position,
    pub color: Color,
}

/// Vertices per cell: each cell is one quad.
pub const VEC_IN_CELL: usize = 4;

/// The color of each cell of a vertex list: that of the cell's first vertex.
pub open spec fn cell_colors(v: Seq<Vertex>) -> Seq<Color> {
    Seq::new(v.len() / 4, |i: int| v[4 * i].color)
}

} // verus!

verus! {

/// Color of a freshly built cell: white, fully transparent.
pub open spec fn cell_color() -> Color {
    Color { r: 255, g: 255, b: 255, a: 0 }
}

/// Color of grid lines: light grey, opaque.
pub open spec fn grid_color() -> Color {
    Color { r: 166, g: 166, b: 166, a: 255 }
}

/// Size of a cuboid in texels.
#[derive(Copy, Clone, Debug, PartialEq, Eq, Structural)]
pub struct Cuboid {
    pub width: u32,
    pub height: u32,
    pub depth: u32,
}

impl Cuboid {
    pub open spec fn wf(self) -> bool {
        1 <= self.width <= 16 && 1 <= self.height <= 16 && 1 <= self.depth <= 16
    }
}

/// How one face of a cuboid is laid out: the corner where its first cell starts,
/// the step from one column to the next and from one row to the next, its number of
/// columns and rows, and whether its quads are wound the other way round.
#[derive(Copy, Clone, Debug, PartialEq, Eq, Structural)]
pub struct Frame {
    pub origin: Position,
    pub u: Position,
    pub v: Position,
    pub cols: u32,
    pub rows: u32,
    pub mirrored: bool,
}

pub open spec fn pos(x: int, y: int, z: int) -> Position {
    Position { x: x as i32, y: y as i32, z: z as i32 }
}

/// `a + j * u + i * v`, coordinate by coordinate.
pub open spec fn offset(a: Position, u: Position, j: int, v: Position, i: int) -> Position {
    pos(a.x + j * u.x + i * v.x, a.y + j * u.y + i * v.y, a.z + j * u.z + i * v.z)
}

/// The frame of each face. A cuboid is centred on the origin; a texel is two units,
/// so the half extents in units equal the sizes in texels. Faces are seen from
/// outside with their first row on top (front and back, left and right sides) or at
/// the back (top and bottom).
pub open spec fn face_frame(c: Cuboid, side: CubeSide) -> Frame {
    let w = c.width as int;
    let h = c.height as int;
    let d = c.depth as int;
    match side {
        CubeSide::Front => Frame { origin: pos(-w, h, d), u: pos(2, 0, 0), v: pos(0, -2, 0), cols: c.width, rows: c.height, mirrored: false },
        CubeSide::Left => Frame { origin: pos(w, h, d), u: pos(0, 0, -2), v: pos(0, -2, 0), cols: c.depth, rows: c.height, mirrored: false },
        CubeSide::Back => Frame { origin: pos(w, h, -d), u: pos(-2, 0, 0), v: pos(0, -2, 0), cols: c.width, rows: c.height, mirrored: false },
        CubeSide::Right => Frame { origin: pos(-w, h, -d), u: pos(0, 0, 2), v: pos(0, -2, 0), cols: c.depth, rows: c.height, mirrored: false },
        CubeSide::Top => Frame { origin: pos(-w, h, -d), u: pos(2, 0, 0), v: pos(0, 0, 2), cols: c.width, rows: c.depth, mirrored: false },
        CubeSide::Bottom => Frame { origin: pos(-w, -h, -d), u: pos(2, 0, 0), v: pos(0, 0, 2), cols: c.width, rows: c.depth, mirrored: true },
    }
}

/// Corner `k` of the cell in row `i`, column `j` of a face.
pub open spec fn corner(f: Frame, i: int, j: int, k: int) -> Position {
    let (du, dv): (int, int) = if k == 0 {
        (0, 0)
    } else if k == 2 {
        (1, 1)
    } else if (k == 1) != f.mirrored {
        (1, 0)
    } else {
        (0, 1)
    };
    offset(f.origin, f.u, j + du, f.v, i + dv)
}

/// The vertices of a face: cell after cell, row by row, four corners each.
pub open spec fn face_vertices(f: Frame) -> Seq<Vertex> {
    Seq::new(
        (4 * (f.rows * f.cols)) as nat,
        |n: int|
            Vertex {
                position: corner(f, (n / 4) / (f.cols as int), (n / 4) % (f.cols as int), n % 4),
                color: cell_color(),
            },
    )
}

/// The vertices of a cuboid: its faces in layout order.
pub open spec fn cuboid_vertices(c: Cuboid) -> Seq<Vertex> {
    face_vertices(face_frame(c, CubeSide::Front)) + face_vertices(face_frame(c, CubeSide::Left))
        + face_vertices(face_frame(c, CubeSide::Back)) + face_vertices(face_frame(c, CubeSide::Right))
        + face_vertices(face_frame(c, CubeSide::Top)) + face_vertices(face_frame(c, CubeSide::Bottom))
}

pub open spec fn frame_small(f: Frame) -> bool {
    &&& 1 <= f.cols <= 16 && 1 <= f.rows <= 16
    &&& -16 <= f.origin.x <= 16 && -16 <= f.origin.y <= 16 && -16 <= f.origin.z <= 16
    &&& -2 <= f.u.x <= 2 && -2 <= f.u.y <= 2 && -2 <= f.u.z <= 2
    &&& -2 <= f.v.x <= 2 && -2 <= f.v.y <= 2 && -2 <= f.v.z <= 2
}

/// The frame of one face of a cuboid.
pub fn face_frame_of(c: Cuboid, side: CubeSide) -> (r: Frame)
    requires
        c.wf(),
    ensures
        r == face_frame(c, side),
        frame_small(r),
{
    let w = c.width as i32;
    let h = c.height as i32;
    let d = c.depth as i32;
    let p = |x: i32, y: i32, z: i32| -> (r: Position)
        ensures
            r == (Position { x, y, z }),
        { Position { x, y, z } };
    match side {
        CubeSide::Front => Frame { origin: p(-w, h, d), u: p(2, 0, 0), v: p(0, -2, 0), cols: c.width, rows: c.height, mirrored: false },
        CubeSide::Left => Frame { origin: p(w, h, d), u: p(0, 0, -2), v: p(0, -2, 0), cols: c.depth, rows: c.height, mirrored: false },
        CubeSide::Back => Frame { origin: p(w, h, -d), u: p(-2, 0, 0), v: p(0, -2, 0), cols: c.width, rows: c.height, mirrored: false },
        CubeSide::Right => Frame { origin: p(-w, h, -d), u: p(0, 0, 2), v: p(0, -2, 0), cols: c.depth, rows: c.height, mirrored: false },
        CubeSide::Top => Frame { origin: p(-w, h, -d), u: p(2, 0, 0), v: p(0, 0, 2), cols: c.width, rows: c.depth, mirrored: false },
        CubeSide::Bottom => Frame { origin: p(-w, -h, -d), u: p(2, 0, 0), v: p(0, 0, 2), cols: c.width, rows: c.depth, mirrored: true },
    }
}

/// `a + j * u + i * v` for small steps.
fn offset_of(a: Position, u: Position, j: i32, v: Position, i: i32) -> (r: Position)
    requires
        -16 <= a.x <= 16 && -16 <= a.y <= 16 && -16 <= a.z <= 16,
        -2 <= u.x <= 2 && -2 <= u.y <= 2 && -2 <= u.z <= 2,
        -2 <= v.x <= 2 && -2 <= v.y <= 2 && -2 <= v.z <= 2,
        0 <= j <= 17,
        0 <= i <= 17,
    ensures
        r == offset(a, u, j as int, v, i as int),
{
    proof {
        assert(-34 <= j * u.x <= 34 && -34 <= j * u.y <= 34 && -34 <= j * u.z <= 34) by (nonlinear_arith)
            requires
                0 <= j <= 17,
                -2 <= u.x <= 2 && -2 <= u.y <= 2 && -2 <= u.z <= 2,
        ;
        assert(-34 <= i * v.x <= 34 && -34 <= i * v.y <= 34 && -34 <= i * v.z <= 34) by (nonlinear_arith)
            requires
                0 <= i <= 17,
                -2 <= v.x <= 2 && -2 <= v.y <= 2 && -2 <= v.z <= 2,
        ;
    }
    Position {
        x: a.x + j * u.x + i * v.x,
        y: a.y + j * u.y + i * v.y,
        z: a.z + j * u.z + i * v.z,
    }
}

/// Appends the vertices of one face.
pub fn push_face(vertices: &mut Vec<Vertex>, f: Frame)
    requires
        frame_small(f),
    ensures
        final(vertices)@ == old(vertices)@ + face_vertices(f),
{
    let ghost start = vertices@;
    let ghost fv = face_vertices(f);
    let color = Color { r: 255, g: 255, b: 255, a: 0 };
    let mut i: u32 = 0;
    while i < f.rows
        invariant
            frame_small(f),
            fv == face_vertices(f),
            color == cell_color(),
            i <= f.rows,
            vertices@ == start + fv.take(4 * (i * f.cols)),
        decreases f.rows - i,
    {
        let mut j: u32 = 0;
        while j < f.cols
            invariant
                frame_small(f),
                fv == face_vertices(f),
                color == cell_color(),
                i < f.rows,
                j <= f.cols,
                vertices@ == start + fv.take(4 * (i * f.cols + j)),
            decreases f.cols - j,
        {
            let ghost c = i * f.cols + j;
            proof {
                assert(c < f.rows * f.cols) by (nonlinear_arith)
                    requires
                        i < f.rows,
                        j < f.cols,
                        c == i * f.cols + j,
                ;
                lemma_cell_corners(f, i as int, j as int);
            }
            let ii = i as i32;
            let jj = j as i32;
            let k0 = offset_of(f.origin, f.u, jj, f.v, ii);
            let k2 = offset_of(f.origin, f.u, jj + 1, f.v, ii + 1);
            let pu = offset_of(f.origin, f.u, jj + 1, f.v, ii);
            let pv = offset_of(f.origin, f.u, jj, f.v, ii + 1);
            let (k1, k3) = if f.mirrored {
                (pv, pu)
            } else {
                (pu, pv)
            };
            vertices.push(Vertex { position: k0, color });
            vertices.push(Vertex { position: k1, color });
            vertices.push(Vertex { position: k2, color });
            vertices.push(Vertex { position: k3, color });
            assert(4 * (i * f.cols + j + 1) == 4 * c + 4);
            assert(vertices@ =~= start + fv.take(4 * (i * f.cols + j + 1)));
            j = j + 1;
        }
        assert(i * f.cols + f.cols == (i + 1) * f.cols) by (nonlinear_arith);
        i = i + 1;
    }
    assert(fv.take(4 * (f.rows * f.cols)) =~= fv);
}

proof fn lemma_cell_corners(f: Frame, i: int, j: int)
    requires
        frame_small(f),
        0 <= i < f.rows,
        0 <= j < f.cols,
    ensures
        4 * (i * f.cols + j) + 4 <= face_vertices(f).len(),
        face_vertices(f)[4 * (i * f.cols + j)] == (Vertex { position: corner(f, i, j, 0), color: cell_color() }),
        face_vertices(f)[4 * (i * f.cols + j) + 1] == (Vertex { position: corner(f, i, j, 1), color: cell_color() }),
        face_vertices(f)[4 * (i * f.cols + j) + 2] == (Vertex { position: corner(f, i, j, 2), color: cell_color() }),
        face_vertices(f)[4 * (i * f.cols + j) + 3] == (Vertex { position: corner(f, i, j, 3), color: cell_color() }),
{
    let c = i * f.cols + j;
    assert(c < f.rows * f.cols) by (nonlinear_arith)
        requires
            0 <= i < f.rows,
            0 <= j < f.cols,
            c == i * f.cols + j,
    ;
    lemma_row_col(c, f.cols as int, i, j);
    lemma_row_col(4 * c, 4, c, 0);
    lemma_row_col(4 * c + 1, 4, c, 1);
    lemma_row_col(4 * c + 2, 4, c, 2);
    lemma_row_col(4 * c + 3, 4, c, 3);
}

/// The vertices of a cuboid's cells: each face in layout order, cell after cell,
/// row by row, four corners each, all of the fresh cell color.
pub fn cuboid(c: Cuboid) -> (r: Vec<Vertex>)
    requires
        c.wf(),
    ensures
        r@ == cuboid_vertices(c),
{
    let mut vertices: Vec<Vertex> = Vec::new();
    push_face(&mut vertices, face_frame_of(c, CubeSide::Front));
    push_face(&mut vertices, face_frame_of(c, CubeSide::Left));
    push_face(&mut vertices, face_frame_of(c, CubeSide::Back));
    push_face(&mut vertices, face_frame_of(c, CubeSide::Right));
    push_face(&mut vertices, face_frame_of(c, CubeSide::Top));
    push_face(&mut vertices, face_frame_of(c, CubeSide::Bottom));
    assert(vertices@ =~= cuboid_vertices(c));
    vertices
}

} // verus!

verus! {

/// Vertex `n` of a face's grid overlay: first one segment down each of the
/// `cols + 1` column boundaries, then one across each of the `rows + 1` row
/// boundaries, two endpoints per segment.
pub open spec fn grid_vertex(f: Frame, n: int) -> Vertex {
    let line = n / 2;
    let end = n % 2;
    let cols = f.cols as int;
    let rows = f.rows as int;
    let position = if line <= cols {
        offset(f.origin, f.u, line, f.v, end * rows)
    } else {
        offset(f.origin, f.u, end * cols, f.v, line - cols - 1)
    };
    Vertex { position, color: grid_color() }
}

pub open spec fn face_grid(f: Frame) -> Seq<Vertex> {
    Seq::new((2 * (f.cols + 1 + f.rows + 1)) as nat, |n: int| grid_vertex(f, n))
}

/// The grid overlay of a cuboid: each face's in layout order.
pub open spec fn cuboid_grid_vertices(c: Cuboid) -> Seq<Vertex> {
    face_grid(face_frame(c, CubeSide::Front)) + face_grid(face_frame(c, CubeSide::Left))
        + face_grid(face_frame(c, CubeSide::Back)) + face_grid(face_frame(c, CubeSide::Right))
        + face_grid(face_frame(c, CubeSide::Top)) + face_grid(face_frame(c, CubeSide::Bottom))
}

/// Appends the grid overlay of one face.
pub fn push_grid(vertices: &mut Vec<Vertex>, f: Frame)
    requires
        frame_small(f),
    ensures
        final(vertices)@ == old(vertices)@ + face_grid(f),
{
    let ghost start = vertices@;
    let ghost fg = face_grid(f);
    let color = Color { r: 166, g: 166, b: 166, a: 255 };
    let cols = f.cols as i32;
    let rows = f.rows as i32;
    let mut line: u32 = 0;
    while line < f.cols + f.rows + 2
        invariant
            frame_small(f),
            fg == face_grid(f),
            color == grid_color(),
            cols == f.cols,
            rows == f.rows,
            line <= f.cols + f.rows + 2,
            vertices@ == start + fg.take(2 * line),
        decreases f.cols + f.rows + 2 - line,
    {
        proof {
            lemma_row_col(2 * line, 2, line as int, 0);
            lemma_row_col(2 * line + 1, 2, line as int, 1);
        }
        let (a, b) = if line <= f.cols {
            let j = line as i32;
            (offset_of(f.origin, f.u, j, f.v, 0), offset_of(f.origin, f.u, j, f.v, rows))
        } else {
            let i = (line - f.cols - 1) as i32;
            (offset_of(f.origin, f.u, 0, f.v, i), offset_of(f.origin, f.u, cols, f.v, i))
        };
        vertices.push(Vertex { position: a, color });
        vertices.push(Vertex { position: b, color });
        assert(fg[2 * line as int] == Vertex { position: a, color });
        assert(fg[2 * line + 1] == Vertex { position: b, color });
        assert(vertices@ =~= start + fg.take(2 * (line + 1)));
        line = line + 1;
    }
    assert(fg.take(2 * line) =~= fg);
}

/// The grid overlay of a cuboid's faces, as line segments.
pub fn cuboid_grid(c: Cuboid) -> (r: Vec<Vertex>)
    requires
        c.wf(),
    ensures
        r@ == cuboid_grid_vertices(c),
{
    let mut vertices: Vec<Vertex> = Vec::new();
    push_grid(&mut vertices, face_frame_of(c, CubeSide::Front));
    push_grid(&mut vertices, face_frame_of(c, CubeSide::Left));
    push_grid(&mut vertices, face_frame_of(c, CubeSide::Back));
    push_grid(&mut vertices, face_frame_of(c, CubeSide::Right));
    push_grid(&mut vertices, face_frame_of(c, CubeSide::Top));
    push_grid(&mut vertices, face_frame_of(c, CubeSide::Bottom));
    assert(vertices@ =~= cuboid_grid_vertices(c));
    vertices
}

pub open spec fn head_box() -> Cuboid {
    Cuboid { width: 8, height: 8, depth: 8 }
}

pub open spec fn torso_box() -> Cuboid {
    Cuboid { width: 8, height: 12, depth: 4 }
}

pub open spec fn limb_box() -> Cuboid {
    Cuboid { width: 4, height: 12, depth: 4 }
}

pub open spec fn slim_arm_box() -> Cuboid {
    Cuboid { width: 3, height: 12, depth: 4 }
}

/// Cells of the head: an 8x8x8 cuboid.
pub fn head_vertices() -> (r: Vec<Vertex>)
    ensures
        r@ == cuboid_vertices(head_box()),
{
    cuboid(Cuboid { width: 8, height: 8, depth: 8 })
}

/// Grid overlay of the head.
pub fn head_grid() -> (r: Vec<Vertex>)
    ensures
        r@ == cuboid_grid_vertices(head_box()),
{
    cuboid_grid(Cuboid { width: 8, height: 8, depth: 8 })
}

/// Cells of the torso: an 8x12x4 cuboid.
pub fn body_vertices() -> (r: Vec<Vertex>)
    ensures
        r@ == cuboid_vertices(torso_box()),
{
    cuboid(Cuboid { width: 8, height: 12, depth: 4 })
}

/// Grid overlay of the torso.
pub fn body_grid() -> (r: Vec<Vertex>)
    ensures
        r@ == cuboid_grid_vertices(torso_box()),
{
    cuboid_grid(Cuboid { width: 8, height: 12, depth: 4 })
}

/// Cells of a leg or classic arm: a 4x12x4 cuboid.
pub fn cuboid_4x12x4() -> (r: Vec<Vertex>)
    ensures
        r@ == cuboid_vertices(limb_box()),
{
    cuboid(Cuboid { width: 4, height: 12, depth: 4 })
}

/// Grid overlay of a leg or classic arm.
pub fn grid_4x12x4() -> (r: Vec<Vertex>)
    ensures
        r@ == cuboid_grid_vertices(limb_box()),
{
    cuboid_grid(Cuboid { width: 4, height: 12, depth: 4 })
}

/// Cells of a slim arm: a 3x12x4 cuboid.
pub fn cuboid_3x12x4() -> (r: Vec<Vertex>)
    ensures
        r@ == cuboid_vertices(slim_arm_box()),
{
    cuboid(Cuboid { width: 3, height: 12, depth: 4 })
}

/// Grid overlay of a slim arm.
pub fn grid_3x12x4() -> (r: Vec<Vertex>)
    ensures
        r@ == cuboid_grid_vertices(slim_arm_box()),
{
    cuboid_grid(Cuboid { width: 3, height: 12, depth: 4 })
}

/// Corner of a quad that the `t`-th index of its two triangles names.
pub open spec fn triangle_corner(t: int) -> int {
    if t == 0 || t == 5 {
        0
    } else if t == 1 {
        1
    } else if t == 2 || t == 3 {
        2
    } else {
        3
    }
}

/// Triangle-list indices for `cells_count` quads: `0 1 2 2 3 0` for each quad,
/// offset by four vertices per quad.
pub open spec fn triangle_indexes(cells_count: nat) -> Seq<u16> {
    Seq::new(6 * cells_count, |m: int| (4 * (m / 6) + triangle_corner(m % 6)) as u16)
}

/// Index buffer drawing each cell as two triangles.
pub fn generate_indexes(cells_count: usize) -> (r: Vec<u16>)
    requires
        cells_count <= 16384,
    ensures
        r@ == triangle_indexes(cells_count as nat),
{
    let mut indices: Vec<u16> = Vec::new();
    let mut i: usize = 0;
    while i < cells_count
        invariant
            cells_count <= 16384,
            i <= cells_count,
            indices@ == triangle_indexes(cells_count as nat).take(6 * i),
        decreases cells_count - i,
    {
        let base_index = (i * 4) as u16;
        proof {
            let m = 6 * i as int;
            lemma_row_col(m, 6, i as int, 0);
            lemma_row_col(m + 1, 6, i as int, 1);
            lemma_row_col(m + 2, 6, i as int, 2);
            lemma_row_col(m + 3, 6, i as int, 3);
            lemma_row_col(m + 4, 6, i as int, 4);
            lemma_row_col(m + 5, 6, i as int, 5);
        }
        indices.push(base_index);
        indices.push(base_index + 1);
        indices.push(base_index + 2);
        indices.push(base_index + 2);
        indices.push(base_index + 3);
        indices.push(base_index);
        assert(indices@ =~= triangle_indexes(cells_count as nat).take(6 * (i + 1)));
        i = i + 1;
    }
    assert(indices@ =~= triangle_indexes(cells_count as nat));
    indices
}

/// Line-list indices for a grid overlay: the vertices in order, two per segment.
pub fn generate_line_indexes(vertex_count: usize) -> (r: Vec<u16>)
    requires
        vertex_count <= 65536,
    ensures
        r@ == Seq::new(vertex_count as nat, |m: int| m as u16),
{
    let mut indices: Vec<u16> = Vec::new();
    let mut i: usize = 0;
    while i < vertex_count
        invariant
            vertex_count <= 65536,
            i <= vertex_count,
            indices@ == Seq::new(vertex_count as nat, |m: int| m as u16).take(i as int),
        decreases vertex_count - i,
    {
        indices.push(i as u16);
        assert(indices@ =~= Seq::new(vertex_count as nat, |m: int| m as u16).take(i + 1));
        i = i + 1;
    }
    assert(indices@ =~= Seq::new(vertex_count as nat, |m: int| m as u16));
    indices
}

} // verus!
