use vstd::prelude::*;

use crate::atlas::{
    Bitmap, ColorMap, SkinParser, TextureLoadError, decoded, lemma_side_starts, side_start, side_cells,
    part_cells, texture_pixel, atlas_pixel,
};
use crate::cell::{Cells, ModelCell, all_matches, part_matches, replaced, same_shape, set_cell};
use crate::color::{Color, transparent};
use crate::geometry::{
    Cuboid, Vertex, body_grid, body_vertices, cuboid_grid_vertices, grid_3x12x4, grid_4x12x4, head_grid, cell_color, cuboid_3x12x4, cuboid_4x12x4, cuboid_vertices,
    face_frame, face_vertices, head_vertices,
};
use crate::mesh::{ModelObject, cells_uniform, deep_view, flatten_all, overlay, positions, vertex_color};
use crate::remap::{classic_to_slim_arm, classic_to_slim_cells, slim_to_classic_arm, slim_to_classic_cells};
use crate::taxonomy::{BodyPart, CubeSide, ModelType, BODY_PART_COUNT};

verus! {

/// What the pointer went down on, while a button is held.
#[derive(PartialEq, Eq, Structural, Copy, Clone, Debug)]
pub enum Hover {
    OnModel,
    OnEmptyArea,
}

/// The cuboid of a body part.
pub open spec fn part_cuboid(model: ModelType, part: BodyPart) -> Cuboid {
    match part {
        BodyPart::Head | BodyPart::HeadOuter => Cuboid { width: 8, height: 8, depth: 8 },
        BodyPart::Torso | BodyPart::TorsoOuter => Cuboid { width: 8, height: 12, depth: 4 },
        BodyPart::RightArm | BodyPart::LeftArm | BodyPart::RightArmOuter | BodyPart::LeftArmOuter => {
            if model == ModelType::Slim {
                Cuboid { width: 3, height: 12, depth: 4 }
            } else {
                Cuboid { width: 4, height: 12, depth: 4 }
            }
        },
        _ => Cuboid { width: 4, height: 12, depth: 4 },
    }
}

/// The vertices a body part's mesh is built from.
pub open spec fn part_mesh(model: ModelType, part: BodyPart) -> Seq<Vertex> {
    cuboid_vertices(part_cuboid(model, part))
}

proof fn lemma_cuboid_len(c: Cuboid)
    ensures
        cuboid_vertices(c).len() == 4 * (c.height * c.width) + 4 * (c.height * c.depth) + 4 * (c.height
            * c.width) + 4 * (c.height * c.depth) + 4 * (c.depth * c.width) + 4 * (c.depth * c.width),
{
}

/// Facts about a freshly built mesh: its size, and that every cell has the fresh color.
pub proof fn lemma_part_mesh(model: ModelType, part: BodyPart)
    ensures
        part_mesh(model, part).len() == 4 * part_cells(model, part),
        forall|j: int| 0 <= j < part_mesh(model, part).len() ==> (#[trigger] part_mesh(model, part)[j]).color == cell_color(),
        cells_uniform(part_mesh(model, part)),
{
    lemma_side_starts(model, part);
    let c = part_cuboid(model, part);
    let v = part_mesh(model, part);
    lemma_cuboid_len(c);
    match part {
        BodyPart::Head | BodyPart::HeadOuter => {},
        BodyPart::Torso | BodyPart::TorsoOuter => {},
        BodyPart::RightArm | BodyPart::LeftArm | BodyPart::RightArmOuter | BodyPart::LeftArmOuter => {
            if model == ModelType::Slim {
                assert(c.width == 3 && c.height == 12 && c.depth == 4);
                assert(c.height * c.width == 36);
                assert(v.len() == 4 * 192);
            } else {
                assert(v.len() == 4 * 224);
            }
        },
        _ => {},
    }
    assert forall|j: int| 0 <= j < v.len() implies (#[trigger] v[j]).color == cell_color() by {
        let f0 = face_vertices(face_frame(c, CubeSide::Front));
        let f1 = face_vertices(face_frame(c, CubeSide::Left));
        let f2 = face_vertices(face_frame(c, CubeSide::Back));
        let f3 = face_vertices(face_frame(c, CubeSide::Right));
        let f4 = face_vertices(face_frame(c, CubeSide::Top));
        let f5 = face_vertices(face_frame(c, CubeSide::Bottom));
        assert(v == f0 + f1 + f2 + f3 + f4 + f5);
    }
    vstd::arithmetic::div_mod::lemma_fundamental_div_mod(v.len() as int, 4);
    assert forall|j: int| 0 <= j < v.len() implies #[trigger] vertex_color(v, j) == crate::geometry::cell_colors(v)[j / 4] by {
        vstd::arithmetic::div_mod::lemma_fundamental_div_mod(j, 4);
        vstd::arithmetic::div_mod::lemma_mod_bound(j, 4);
        assert(4 * (j / 4) < v.len());
        assert(v[4 * (j / 4)].color == cell_color());
    }
}

/// Builds the vertices of a body part's mesh.
pub fn part_vertices(model: ModelType, part: BodyPart) -> (r: Vec<Vertex>)
    ensures
        r@ == part_mesh(model, part),
{
    match part {
        BodyPart::Head | BodyPart::HeadOuter => head_vertices(),
        BodyPart::Torso | BodyPart::TorsoOuter => body_vertices(),
        BodyPart::RightArm | BodyPart::LeftArm | BodyPart::RightArmOuter | BodyPart::LeftArmOuter => {
            match model {
                ModelType::Slim => cuboid_3x12x4(),
                ModelType::Classic => cuboid_4x12x4(),
            }
        },
        _ => cuboid_4x12x4(),
    }
}

/// The twelve body-part meshes of a skin, with what is shown of them and the state
/// of the pointer.
pub struct Renderer {
    pub model_objects: Vec<ModelObject>,
    pub visible_objects: Vec<bool>,
    pub grid: bool,
    pub model_type: ModelType,
    pub mouse_hover: Option<Hover>,
    pub mouse_motion: bool,
    pub grid_objects: Vec<Vec<Vertex>>,
}

pub open spec fn meshes_wf(model: ModelType, objects: Seq<ModelObject>) -> bool {
    &&& objects.len() == 12
    &&& forall|p: int|
        0 <= p < 12 ==> {
            &&& (#[trigger] objects[p]).wf()
            &&& objects[p].vertexes@.len() == 4 * part_cells(model, BodyPart::from_spec_index(p))
            &&& positions(objects[p].vertexes@) == positions(part_mesh(model, BodyPart::from_spec_index(p)))
        }
}

/// The grid overlay of a body part, in the given variant.
pub open spec fn part_grid(model: ModelType, part: BodyPart) -> Seq<Vertex> {
    cuboid_grid_vertices(part_cuboid(model, part))
}

/// Builds the grid overlay of a body part.
pub fn part_grid_vertices(model: ModelType, part: BodyPart) -> (r: Vec<Vertex>)
    ensures
        r@ == part_grid(model, part),
{
    match part {
        BodyPart::Head | BodyPart::HeadOuter => head_grid(),
        BodyPart::Torso | BodyPart::TorsoOuter => body_grid(),
        BodyPart::RightArm | BodyPart::LeftArm | BodyPart::RightArmOuter | BodyPart::LeftArmOuter => {
            match model {
                ModelType::Slim => grid_3x12x4(),
                ModelType::Classic => grid_4x12x4(),
            }
        },
        _ => grid_4x12x4(),
    }
}

/// Every part's grid overlay matches its cuboid in the given variant.
pub open spec fn grids_wf(model: ModelType, grids: Seq<Vec<Vertex>>) -> bool {
    &&& grids.len() == 12
    &&& forall|p: int| 0 <= p < 12 ==> (#[trigger] grids[p])@ == part_grid(model, BodyPart::from_spec_index(p))
}

impl Renderer {
    pub open spec fn wf(&self) -> bool {
        &&& meshes_wf(self.model_type, self.model_objects@)
        &&& self.visible_objects@.len() == 12
        &&& grids_wf(self.model_type, self.grid_objects@)
    }

    /// The color of every cell, by body part, then cell.
    pub open spec fn cells(&self) -> Cells {
        Seq::new(self.model_objects@.len(), |p: int| self.model_objects@[p].cells())
    }

    /// The meshes of a skin of the given variant, all shown, every cell of the fresh
    /// color.
    pub fn new(model_type: ModelType) -> (r: Renderer)
        ensures
            r.wf(),
            r.model_type == model_type,
            forall|p: int| 0 <= p < 12 ==> #[trigger] r.visible_objects@[p],
            r.grid,
            r.mouse_hover.is_none(),
            !r.mouse_motion,
            forall|p: int| 0 <= p < 12 ==> (#[trigger] r.model_objects@[p]).vertexes@ == part_mesh(model_type, BodyPart::from_spec_index(p)),
    {
        let mut model_objects: Vec<ModelObject> = Vec::new();
        let mut visible_objects: Vec<bool> = Vec::new();
        let mut grid_objects: Vec<Vec<Vertex>> = Vec::new();
        let mut p: usize = 0;
        while p < BODY_PART_COUNT
            invariant
                p <= 12,
                model_objects@.len() == p,
                visible_objects@.len() == p,
                grid_objects@.len() == p,
                forall|q: int| 0 <= q < p ==> (#[trigger] grid_objects@[q])@ == part_grid(model_type, BodyPart::from_spec_index(q)),
                forall|q: int| 0 <= q < p ==> #[trigger] visible_objects@[q],
                forall|q: int|
                    0 <= q < p ==> (#[trigger] model_objects@[q]).wf() && model_objects@[q].vertexes@
                        == part_mesh(model_type, BodyPart::from_spec_index(q)),
            decreases 12 - p,
        {
            let part = BodyPart::from_index(p);
            let vertexes = part_vertices(model_type, part);
            proof {
                lemma_part_mesh(model_type, part);
            }
            model_objects.push(ModelObject::new(&vertexes));
            visible_objects.push(true);
            grid_objects.push(part_grid_vertices(model_type, part));
            p = p + 1;
        }
        let r = Renderer {
            model_objects,
            visible_objects,
            grid: true,
            model_type,
            mouse_hover: None,
            mouse_motion: false,
            grid_objects,
        };
        assert forall|q: int| 0 <= q < 12 implies r.model_objects@[q].vertexes@.len() == 4 * part_cells(
            model_type,
            BodyPart::from_spec_index(q),
        ) by {
            lemma_part_mesh(model_type, BodyPart::from_spec_index(q));
        }
        r
    }

    /// Makes every cell of every mesh fully transparent.
    pub fn reset_skin(&mut self)
        requires
            old(self).wf(),
        ensures
            final(self).wf(),
            same_shape(final(self).cells(), old(self).cells()),
            forall|p: int, i: int|
                0 <= p < 12 && 0 <= i < final(self).cells()[p].len() ==> #[trigger] final(self).cells()[p][i]
                    == transparent(),
            final(self).model_type == old(self).model_type,
            final(self).visible_objects == old(self).visible_objects,
            final(self).grid == old(self).grid,
            final(self).mouse_hover == old(self).mouse_hover,
            final(self).mouse_motion == old(self).mouse_motion,
    {
        let mut p: usize = 0;
        while p < BODY_PART_COUNT
            invariant
                meshes_wf(self.model_type, self.model_objects@),
                self.model_type == old(self).model_type,
                self.visible_objects == old(self).visible_objects,
                self.grid_objects == old(self).grid_objects,
                grids_wf(self.model_type, self.grid_objects@),
                self.grid == old(self).grid,
                self.mouse_hover == old(self).mouse_hover,
                self.mouse_motion == old(self).mouse_motion,
                p <= 12,
                forall|q: int|
                    0 <= q < 12 ==> (#[trigger] self.model_objects@[q]).vertexes@.len() == old(self).model_objects@[q].vertexes@.len(),
                forall|q: int, i: int|
                    0 <= q < p && 0 <= i < self.model_objects@[q].cell_count() ==> #[trigger] self.model_objects@[q].cells()[i]
                        == transparent(),
            decreases 12 - p,
        {
            let mut obj = self.model_objects.remove(p);
            obj.clear();
            self.model_objects.insert(p, obj);
            p = p + 1;
        }
    }

    /// Shows or hides the grid overlay.
    pub fn set_grid_show(&mut self, show: bool)
        ensures
            *final(self) == (Renderer { grid: show, ..*old(self) }),
    {
        self.grid = show;
    }

    /// The arm variant of the meshes.
    pub fn get_model_type(&self) -> (r: ModelType)
        ensures
            r == self.model_type,
    {
        self.model_type
    }

    /// The color of one cell, when the part has it.
    pub fn get_pixel(&self, body_part: BodyPart, cell_index: usize) -> (r: Option<Color>)
        requires
            self.wf(),
        ensures
            r == if cell_index < self.cells()[body_part.spec_index() as int].len() {
                Some(self.cells()[body_part.spec_index() as int][cell_index as int])
            } else {
                None
            },
    {
        let p = body_part.index();
        let obj = &self.model_objects[p];
        if cell_index < obj.vertexes.len() / 4 {
            Some(obj.get_pixel(cell_index))
        } else {
            None
        }
    }

    /// Paints one cell with the cell's color. A cell past the end of its part
    /// changes nothing.
    pub fn set_cell(&mut self, cell: &ModelCell)
        requires
            old(self).wf(),
        ensures
            final(self).wf(),
            final(self).cells() == set_cell(old(self).cells(), *cell),
            final(self).model_type == old(self).model_type,
            final(self).visible_objects == old(self).visible_objects,
            final(self).grid == old(self).grid,
            final(self).mouse_hover == old(self).mouse_hover,
            final(self).mouse_motion == old(self).mouse_motion,
    {
        let p = cell.body_part.index();
        let mut obj = self.model_objects.remove(p);
        obj.paint(cell.cell_index, cell.color);
        self.model_objects.insert(p, obj);
        assert(self.model_objects@ =~= old(self).model_objects@.update(p as int, obj));
        assert(self.cells() =~= set_cell(old(self).cells(), *cell));
    }
}

} // verus!

verus! {

/// The cells of a freshly built mesh.
pub open spec fn fresh_cells(model: ModelType, part: BodyPart) -> Seq<Color> {
    crate::geometry::cell_colors(part_mesh(model, part))
}

/// The cells of one part after switching the arm variant from `from` to `to`: arms
/// are laid out anew, other parts keep theirs.
pub open spec fn remapped_part(from: ModelType, to: ModelType, part: BodyPart, cells: Seq<Color>) -> Seq<Color> {
    if from == to || !part.spec_is_arm() {
        cells
    } else if to == ModelType::Slim {
        classic_to_slim_cells(part.spec_side(), cells)
    } else {
        slim_to_classic_cells(part.spec_side(), cells, fresh_cells(ModelType::Classic, part))
    }
}

/// All cells after switching the arm variant from `from` to `to`.
pub open spec fn remapped(from: ModelType, to: ModelType, s: Cells) -> Cells {
    Seq::new(s.len(), |p: int| remapped_part(from, to, BodyPart::from_spec_index(p), s[p]))
}

/// Whether an object is a well-formed mesh of a part in the given variant.
pub open spec fn mesh_of(obj: ModelObject, model: ModelType, part: BodyPart) -> bool {
    &&& obj.wf()
    &&& obj.vertexes@.len() == 4 * part_cells(model, part)
    &&& positions(obj.vertexes@) == positions(part_mesh(model, part))
}

/// Replaces the mesh of one arm by a mesh of the other variant, carrying its cells over.
fn swap_arm(objects: &mut Vec<ModelObject>, part: BodyPart, from: ModelType, to: ModelType)
    requires
        from != to,
        part.spec_is_arm(),
        old(objects)@.len() == 12,
        mesh_of(old(objects)@[part.spec_index() as int], from, part),
    ensures
        final(objects)@.len() == 12,
        mesh_of(final(objects)@[part.spec_index() as int], to, part),
        final(objects)@[part.spec_index() as int].cells() == remapped_part(
            from,
            to,
            part,
            old(objects)@[part.spec_index() as int].cells(),
        ),
        forall|q: int| 0 <= q < 12 && q != part.spec_index() ==> #[trigger] final(objects)@[q] == old(objects)@[q],
{
    let p = part.index();
    let vertexes = part_vertices(to, part);
    proof {
        lemma_part_mesh(to, part);
        lemma_part_mesh(from, part);
        lemma_side_starts(to, part);
        lemma_side_starts(from, part);
    }
    let mut new_arm = ModelObject::new(&vertexes);
    match to {
        ModelType::Slim => classic_to_slim_arm(&objects[p], &mut new_arm, part),
        ModelType::Classic => slim_to_classic_arm(&objects[p], &mut new_arm, part),
    }
    objects.set(p, new_arm);
}

impl Renderer {
    /// Switches the arm variant, laying the arms' cells out anew: classic to slim
    /// drops the outer-edge column of the front, back, top and bottom faces; slim to
    /// classic leaves that column of the fresh color.
    pub fn reset_model_type(&mut self, model_type: ModelType)
        requires
            old(self).wf(),
        ensures
            final(self).wf(),
            final(self).model_type == model_type,
            final(self).cells() == remapped(old(self).model_type, model_type, old(self).cells()),
            final(self).visible_objects == old(self).visible_objects,
            final(self).grid == old(self).grid,
            final(self).mouse_hover == old(self).mouse_hover,
            final(self).mouse_motion == old(self).mouse_motion,
    {
        let from = self.model_type;
        if from == model_type {
            assert(self.cells() =~= remapped(from, model_type, self.cells()));
            return;
        }
        let ghost before = self.model_objects@;
        proof {
            assert(mesh_of(before[2], from, BodyPart::RightArm));
            assert(mesh_of(before[3], from, BodyPart::LeftArm));
            assert(mesh_of(before[8], from, BodyPart::RightArmOuter));
            assert(mesh_of(before[9], from, BodyPart::LeftArmOuter));
        }
        swap_arm(&mut self.model_objects, BodyPart::RightArm, from, model_type);
        swap_arm(&mut self.model_objects, BodyPart::RightArmOuter, from, model_type);
        swap_arm(&mut self.model_objects, BodyPart::LeftArm, from, model_type);
        swap_arm(&mut self.model_objects, BodyPart::LeftArmOuter, from, model_type);
        self.grid_objects.set(BodyPart::RightArm.index(), part_grid_vertices(model_type, BodyPart::RightArm));
        self.grid_objects.set(BodyPart::LeftArm.index(), part_grid_vertices(model_type, BodyPart::LeftArm));
        self.grid_objects.set(BodyPart::RightArmOuter.index(), part_grid_vertices(model_type, BodyPart::RightArmOuter));
        self.grid_objects.set(BodyPart::LeftArmOuter.index(), part_grid_vertices(model_type, BodyPart::LeftArmOuter));
        self.model_type = model_type;
        proof {
            assert forall|q: int| 0 <= q < 12 implies mesh_of(#[trigger] self.model_objects@[q], model_type, BodyPart::from_spec_index(q))
                && self.model_objects@[q].cells() == remapped_part(from, model_type, BodyPart::from_spec_index(q), before[q].cells()) by {
                let part = BodyPart::from_spec_index(q);
                if !part.spec_is_arm() {
                    assert(mesh_of(before[q], from, part));
                    assert(part_mesh(model_type, part) == part_mesh(from, part));
                    lemma_side_starts(model_type, part);
                    lemma_side_starts(from, part);
                }
            }
            assert(self.cells() =~= remapped(from, model_type, old(self).cells()));
        }
    }

    /// Paints every part's cells with the texels decoded for it, face after face.
    /// With `ignore_transparent`, fully transparent texels leave their cells as
    /// they were.
    pub fn load_from_color_map(&mut self, color_map: &ColorMap, ignore_transparent: bool)
        requires
            old(self).wf(),
            color_map.parts@.len() == 12,
            forall|p: int| 0 <= p < 12 ==> flatten_all(#[trigger] color_map@[p]).len() <= usize::MAX,
        ensures
            final(self).wf(),
            final(self).cells() == Seq::new(
                12,
                |p: int| overlay(old(self).cells()[p], flatten_all(color_map@[p]), ignore_transparent),
            ),
            final(self).model_type == old(self).model_type,
            final(self).visible_objects == old(self).visible_objects,
            final(self).grid == old(self).grid,
            final(self).mouse_hover == old(self).mouse_hover,
            final(self).mouse_motion == old(self).mouse_motion,
    {
        let ghost before = self.cells();
        let mut p: usize = 0;
        while p < BODY_PART_COUNT
            invariant
                meshes_wf(self.model_type, self.model_objects@),
                self.model_type == old(self).model_type,
                self.visible_objects == old(self).visible_objects,
                self.grid_objects == old(self).grid_objects,
                grids_wf(self.model_type, self.grid_objects@),
                self.grid == old(self).grid,
                self.mouse_hover == old(self).mouse_hover,
                self.mouse_motion == old(self).mouse_motion,
                before == old(self).cells(),
                color_map.parts@.len() == 12,
                forall|q: int| 0 <= q < 12 ==> flatten_all(#[trigger] color_map@[q]).len() <= usize::MAX,
                p <= 12,
                forall|q: int|
                    0 <= q < 12 ==> #[trigger] self.model_objects@[q].cells() == if q < p {
                        overlay(before[q], flatten_all(color_map@[q]), ignore_transparent)
                    } else {
                        before[q]
                    },
            decreases 12 - p,
        {
            proof {
                assert(deep_view(color_map.parts@[p as int]@) =~= color_map@[p as int]);
            }
            let ghost cur = self.model_objects@;
            let mut obj = self.model_objects.remove(p);
            obj.set_pixels(&color_map.parts[p], ignore_transparent);
            self.model_objects.insert(p, obj);
            assert(self.model_objects@ =~= cur.update(p as int, obj));
            p = p + 1;
        }
        assert(self.cells() =~= Seq::new(
            12,
            |q: int| overlay(before[q], flatten_all(color_map@[q]), ignore_transparent),
        ));
    }
}

} // verus!

verus! {

/// All cells transparent, in the shape of a skin of the given variant.
pub open spec fn blank_cells(model: ModelType) -> Cells {
    Seq::new(12, |p: int| Seq::new(part_cells(model, BodyPart::from_spec_index(p)) as nat, |i: int| transparent()))
}

/// The cells a skin decoded from atlas texels gives: every cell first cleared, then
/// painted from its texel (with `ignore_transparent`, fully transparent texels are
/// skipped, which leaves those cells clear).
pub open spec fn loaded_cells(model: ModelType, img: Seq<Color>, ignore_transparent: bool) -> Cells {
    Seq::new(
        12,
        |p: int| overlay(blank_cells(model)[p], flatten_all(decoded(model, img)[p]), ignore_transparent),
    )
}

proof fn lemma_decoded_fits(model: ModelType, img: Seq<Color>, p: int)
    requires
        0 <= p < 12,
    ensures
        flatten_all(decoded(model, img)[p]).len() <= usize::MAX,
{
    let d = decoded(model, img)[p];
    let part = BodyPart::from_spec_index(p);
    lemma_side_starts(model, part);
    assert forall|t: int| 0 <= t < 6 implies (#[trigger] d[t]).len() <= 96 by {
        crate::atlas::lemma_side_rect_bounds(model, part, CubeSide::from_spec_index(t));
        let r = crate::atlas::side_rect(model, part, CubeSide::from_spec_index(t));
        assert(r.2 * r.3 <= 96) by (nonlinear_arith)
            requires
                1 <= r.2 <= 8,
                1 <= r.3 <= 12,
        ;
    }
    reveal_with_fuel(flatten_all, 7);
    assert(d.take(0).len() == 0);
    assert(d.take(6) =~= d);
    assert(flatten_all(d.take(1)).len() <= 96) by {
        assert(d.take(1).drop_last() =~= d.take(0));
    }
    assert(flatten_all(d.take(2)).len() <= 192) by {
        assert(d.take(2).drop_last() =~= d.take(1));
    }
    assert(flatten_all(d.take(3)).len() <= 288) by {
        assert(d.take(3).drop_last() =~= d.take(2));
    }
    assert(flatten_all(d.take(4)).len() <= 384) by {
        assert(d.take(4).drop_last() =~= d.take(3));
    }
    assert(flatten_all(d.take(5)).len() <= 480) by {
        assert(d.take(5).drop_last() =~= d.take(4));
    }
    assert(flatten_all(d.take(6)).len() <= 576) by {
        assert(d.take(6).drop_last() =~= d.take(5));
    }
}

impl Renderer {
    /// Replaces the skin by one decoded from an atlas, switching to the given arm
    /// variant. An atlas that is not 64x64 is refused before anything changes.
    pub fn load_texture(&mut self, img: &Bitmap, model_type: ModelType, ignore_transparent: bool) -> (r: Result<(), TextureLoadError>)
        requires
            old(self).wf(),
            img.wf(),
        ensures
            final(self).wf(),
            r.is_ok() == (img.width == 64 && img.height == 64),
            r matches Err(e) ==> e == (TextureLoadError::ImageDimensionError { width: img.width, height: img.height })
                && *final(self) == *old(self),
            r is Ok ==> final(self).model_type == model_type && final(self).cells() == loaded_cells(
                model_type,
                img.pixels@,
                ignore_transparent,
            ),
            final(self).visible_objects == old(self).visible_objects,
            final(self).grid == old(self).grid,
    {
        let parser = SkinParser::new(&model_type);
        let color_map = match parser.load_image(img) {
            Ok(cm) => cm,
            Err(e) => return Err(e),
        };
        self.install(&color_map, model_type, ignore_transparent);
        Ok(())
    }

    /// Replaces the skin by one decoded from the bytes of an image file, switching to
    /// the given arm variant. Bytes that are no image, or an image that is not 64x64,
    /// are refused before anything changes.
    pub fn load_texture_from_bytes(&mut self, bytes: &[u8], model_type: ModelType, ignore_transparent: bool) -> (r: Result<(), TextureLoadError>)
        requires
            old(self).wf(),
        ensures
            final(self).wf(),
            r is Err ==> *final(self) == *old(self),
            (r matches Err(TextureLoadError::Image(_))) <==> crate::codec::decoded_rgba(bytes@) is None,
            crate::codec::decoded_rgba(bytes@) matches Some((w, h, data)) ==> ({
                &&& r.is_ok() == (w == 64 && h == 64)
                &&& r matches Err(e) ==> e == (TextureLoadError::ImageDimensionError { width: w, height: h })
                &&& r is Ok ==> final(self).model_type == model_type && final(self).cells() == loaded_cells(
                    model_type,
                    crate::codec::rgba_pixels(data),
                    ignore_transparent,
                )
            }),
            final(self).visible_objects == old(self).visible_objects,
            final(self).grid == old(self).grid,
    {
        let parser = SkinParser::new(&model_type);
        let color_map = match parser.load_from_bytes(bytes) {
            Ok(cm) => cm,
            Err(e) => return Err(e),
        };
        self.install(&color_map, model_type, ignore_transparent);
        Ok(())
    }

    /// Switches to the given variant, clears every cell and paints the decoded texels.
    fn install(&mut self, color_map: &ColorMap, model_type: ModelType, ignore_transparent: bool)
        requires
            old(self).wf(),
            exists|img: Seq<Color>| #[trigger] decoded(model_type, img) == color_map@,
        ensures
            final(self).wf(),
            final(self).model_type == model_type,
            forall|img: Seq<Color>| #[trigger] decoded(model_type, img) == color_map@ ==> final(self).cells() == loaded_cells(
                model_type,
                img,
                ignore_transparent,
            ),
            final(self).visible_objects == old(self).visible_objects,
            final(self).grid == old(self).grid,
    {
        let ghost img = choose|img: Seq<Color>| #[trigger] decoded(model_type, img) == color_map@;
        self.reset_model_type(model_type);
        self.reset_skin();
        proof {
            assert(color_map@.len() == 12);
            assert(color_map.parts@.len() == color_map@.len());
            assert forall|p: int| 0 <= p < 12 implies flatten_all(#[trigger] color_map@[p]).len() <= usize::MAX by {
                lemma_decoded_fits(model_type, img, p);
            }
        }
        let ghost cleared = self.cells();
        self.load_from_color_map(color_map, ignore_transparent);
        proof {
            assert(cleared =~~= blank_cells(model_type)) by {
                assert forall|p: int| 0 <= p < 12 implies #[trigger] cleared[p] =~= blank_cells(model_type)[p] by {
                    lemma_side_starts(model_type, BodyPart::from_spec_index(p));
                }
            }
            assert forall|img2: Seq<Color>| #[trigger] decoded(model_type, img2) == color_map@ implies self.cells() == loaded_cells(
                model_type,
                img2,
                ignore_transparent,
            ) by {
                assert(self.cells() =~= loaded_cells(model_type, img2, ignore_transparent));
            }
        }
    }
}

} // verus!

verus! {

/// The face of a body part that cell `i` lies on.
pub open spec fn side_of_cell(model: ModelType, part: BodyPart, i: int) -> CubeSide {
    if i < side_start(model, part, CubeSide::Left) {
        CubeSide::Front
    } else if i < side_start(model, part, CubeSide::Back) {
        CubeSide::Left
    } else if i < side_start(model, part, CubeSide::Right) {
        CubeSide::Back
    } else if i < side_start(model, part, CubeSide::Top) {
        CubeSide::Right
    } else if i < side_start(model, part, CubeSide::Bottom) {
        CubeSide::Top
    } else {
        CubeSide::Bottom
    }
}

/// The first cell and the number of cells of the face that cell `i` lies on.
pub open spec fn side_range(model: ModelType, part: BodyPart, i: int) -> (int, int) {
    let side = side_of_cell(model, part, i);
    (side_start(model, part, side), side_cells(model, part, side))
}

/// Every cell, with its color, of the face of a body part that cell `i` lies on.
pub open spec fn side_snapshot(s: Cells, model: ModelType, part: BodyPart, i: int) -> Seq<ModelCell> {
    let (a, n) = side_range(model, part, i);
    Seq::new(
        n as nat,
        |k: int| ModelCell { body_part: part, cell_index: (a + k) as usize, color: s[part.spec_index() as int][a + k] },
    )
}

impl Renderer {
    /// Every cell, with its current color, of the face that the given cell lies on;
    /// `None` when the part has no such cell.
    pub fn get_side_cells(&self, body_part: &BodyPart, cell_index: usize) -> (r: Option<Vec<ModelCell>>)
        requires
            self.wf(),
        ensures
            r.is_none() == (cell_index >= part_cells(self.model_type, *body_part)),
            r matches Some(v) ==> v@ == side_snapshot(self.cells(), self.model_type, *body_part, cell_index as int),
    {
        let ghost model = self.model_type;
        let part = *body_part;
        let p = part.index();
        proof {
            lemma_side_starts(model, part);
            assert(BodyPart::from_spec_index(p as int) == part);
        }
        let obj = &self.model_objects[p];
        let mut start: usize = 0;
        let mut s: usize = 0;
        while s < crate::taxonomy::SIDE_COUNT
            invariant
                self.wf(),
                model == self.model_type,
                p == part.spec_index(),
                BodyPart::from_spec_index(p as int) == part,
                *obj == self.model_objects@[p as int],
                s <= 6,
                part == *body_part,
                start == crate::atlas::side_start_at(model, part, s as nat),
                start <= part_cells(model, part),
                part_cells(model, part) <= 384,
                cell_index >= start,
            decreases 6 - s,
        {
            let side = CubeSide::from_index(s);
            let meta = crate::atlas::side_meta_of(self.model_type, part, side);
            proof {
                crate::atlas::lemma_side_rect_bounds(model, part, side);
                lemma_side_starts(model, part);
                assert(side.spec_index() == s);
            }
            let count = (meta.dimensions.width * meta.dimensions.height) as usize;
            if cell_index < start + count {
                let ghost a = start as int;
                proof {
                    assert(side_of_cell(model, part, cell_index as int) == side);
                    assert(side_range(model, part, cell_index as int) == (a, count as int));
                }
                proof {
                    crate::atlas::lemma_row_col(4 * part_cells(model, part), 4, part_cells(model, part), 0);
                }
                let mut result: Vec<ModelCell> = Vec::new();
                let mut k: usize = 0;
                while k < count
                    invariant
                        self.wf(),
                        p == part.spec_index(),
                        BodyPart::from_spec_index(p as int) == part,
                        *obj == self.model_objects@[p as int],
                        a == start,
                        start + count <= part_cells(self.model_type, part),
                        obj.vertexes@.len() == 4 * part_cells(self.model_type, part),
                        obj.cell_count() == part_cells(self.model_type, part),
                        part_cells(self.model_type, part) <= 384,
                        obj.wf(),
                        part == *body_part,
                        cell_index < start + count,
                        side_range(self.model_type, part, cell_index as int) == (a, count as int),
                        k <= count,
                        result@ == side_snapshot(self.cells(), self.model_type, part, cell_index as int).take(k as int),
                    decreases count - k,
                {
                    let color = obj.get_pixel(start + k);
                    result.push(ModelCell { body_part: part, cell_index: start + k, color });
                    assert(result@ =~= side_snapshot(self.cells(), self.model_type, part, cell_index as int).take(k + 1));
                    k = k + 1;
                }
                assert(result@ =~= side_snapshot(self.cells(), self.model_type, part, cell_index as int));
                return Some(result);
            }
            start = start + count;
            s = s + 1;
        }
        None
    }

    /// Turns every cell of color `old_color`, in every part, to `new_color`, and
    /// returns those cells with their former color, part by part, in cell order.
    pub fn replace(&mut self, old_color: Color, new_color: Color) -> (r: Vec<ModelCell>)
        requires
            old(self).wf(),
        ensures
            final(self).wf(),
            final(self).cells() == replaced(old(self).cells(), old_color, new_color),
            r@ == all_matches(old(self).cells(), old_color, 12),
            final(self).model_type == old(self).model_type,
            final(self).visible_objects == old(self).visible_objects,
            final(self).grid == old(self).grid,
            final(self).mouse_hover == old(self).mouse_hover,
            final(self).mouse_motion == old(self).mouse_motion,
    {
        let ghost before = self.cells();
        let mut found: Vec<ModelCell> = Vec::new();
        let mut p: usize = 0;
        while p < BODY_PART_COUNT
            invariant
                meshes_wf(self.model_type, self.model_objects@),
                self.model_type == old(self).model_type,
                self.visible_objects == old(self).visible_objects,
                self.grid_objects == old(self).grid_objects,
                grids_wf(self.model_type, self.grid_objects@),
                self.grid == old(self).grid,
                self.mouse_hover == old(self).mouse_hover,
                self.mouse_motion == old(self).mouse_motion,
                before == old(self).cells(),
                before.len() == 12,
                p <= 12,
                found@ == all_matches(before, old_color, p as nat),
                forall|q: int|
                    0 <= q < 12 ==> #[trigger] self.model_objects@[q].cells() == if q < p {
                        replaced(before, old_color, new_color)[q]
                    } else {
                        before[q]
                    },
            decreases 12 - p,
        {
            let part = BodyPart::from_index(p);
            let ghost cur = self.model_objects@;
            let mut obj = self.model_objects.remove(p);
            let n = obj.vertexes.len() / 4;
            let mut i: usize = 0;
            while i < n
                invariant
                    obj.wf(),
                    n == obj.cell_count(),
                    obj.vertexes@.len() == cur[p as int].vertexes@.len(),
                    positions(obj.vertexes@) == positions(cur[p as int].vertexes@),
                    p < 12,
                    before.len() == 12,
                    cur.len() == 12,
                    part == BodyPart::from_spec_index(p as int),
                    before[p as int] == cur[p as int].cells(),
                    i <= n,
                    found@ == all_matches(before, old_color, p as nat) + part_matches(before, p as int, old_color, i as nat),
                    forall|j: int|
                        0 <= j < n ==> #[trigger] obj.cells()[j] == if j < i {
                            replaced(before, old_color, new_color)[p as int][j]
                        } else {
                            before[p as int][j]
                        },
                decreases n - i,
            {
                assert(before[p as int].len() == n);
                let ghost prev = obj.cells();
                assert(prev[i as int] == before[p as int][i as int]);
                let c = obj.get_pixel(i);
                if c == old_color {
                    found.push(ModelCell { body_part: part, cell_index: i, color: old_color });
                    obj.paint(i, new_color);
                    assert(obj.cells() == prev.update(i as int, new_color));
                }
                assert(obj.cells()[i as int] == replaced(before, old_color, new_color)[p as int][i as int]);
                assert forall|j: int| 0 <= j < n && j != i implies #[trigger] obj.cells()[j] == prev[j] by {}
                proof {
                    assert(found@ =~= all_matches(before, old_color, p as nat) + part_matches(before, p as int, old_color, (i + 1) as nat));
                }
                i = i + 1;
            }
            self.model_objects.insert(p, obj);
            assert(self.model_objects@ =~= cur.update(p as int, obj));
            proof {
                assert(obj.cells() =~= replaced(before, old_color, new_color)[p as int]);
            }
            p = p + 1;
        }
        assert(self.cells() =~= replaced(before, old_color, new_color));
        found
    }

    /// The 64x64 atlas of the current skin: every face's cells written into its
    /// rectangle, part by part; texels of no face are transparent.
    pub fn export_texture(&self) -> (r: Bitmap)
        requires
            self.wf(),
        ensures
            r.wf(),
            r.is_atlas(),
            r.pixels@ == crate::atlas::encoded(self.model_type, self.cells()),
    {
        let parser = SkinParser::new(&self.model_type);
        let mut imgbuf = Bitmap::blank_atlas();
        let mut p: usize = 0;
        while p < BODY_PART_COUNT
            invariant
                self.wf(),
                parser.wf(),
                parser.model_type == self.model_type,
                imgbuf.is_atlas(),
                p <= 12,
                forall|x: int, y: int|
                    0 <= x < 64 && 0 <= y < 64 ==> #[trigger] atlas_pixel(imgbuf.pixels@, x, y) == texture_pixel(
                        self.model_type,
                        self.cells(),
                        x,
                        y,
                        p as nat,
                    ),
            decreases 12 - p,
        {
            let part = BodyPart::from_index(p);
            parser.export_as(&part, &mut imgbuf, &self.model_objects[p].vertexes);
            p = p + 1;
        }
        let ghost e = crate::atlas::encoded(self.model_type, self.cells());
        assert forall|i: int| 0 <= i < 4096 implies #[trigger] imgbuf.pixels@[i] == e[i] by {
            vstd::arithmetic::div_mod::lemma_fundamental_div_mod(i, 64);
            vstd::arithmetic::div_mod::lemma_mod_bound(i, 64);
            assert(atlas_pixel(imgbuf.pixels@, i % 64, i / 64) == imgbuf.pixels@[i]);
        }
        assert(imgbuf.pixels@ =~= e);
        imgbuf
    }

    /// Shows or hides one body part.
    pub fn set_body_part_active(&mut self, body_part: &BodyPart, visible: bool)
        requires
            old(self).wf(),
        ensures
            final(self).wf(),
            final(self).visible_objects@ == old(self).visible_objects@.update(body_part.spec_index() as int, visible),
            final(self).model_objects == old(self).model_objects,
            final(self).grid_objects == old(self).grid_objects,
            final(self).model_type == old(self).model_type,
            final(self).grid == old(self).grid,
            final(self).mouse_hover == old(self).mouse_hover,
            final(self).mouse_motion == old(self).mouse_motion,
    {
        self.visible_objects.set(body_part.index(), visible);
    }

    /// Whether a body part is shown.
    pub fn is_visible(&self, body_part: &BodyPart) -> (r: bool)
        requires
            self.wf(),
        ensures
            r == self.visible_objects@[body_part.spec_index() as int],
    {
        self.visible_objects[body_part.index()]
    }

    /// What the pointer went down on, if a button is held.
    pub fn get_mouse_hover(&self) -> (r: Option<Hover>)
        ensures
            r == self.mouse_hover,
    {
        self.mouse_hover
    }

    /// Records what the pointer went down on.
    pub fn set_mouse_hover(&mut self, hover: Option<Hover>)
        ensures
            *final(self) == (Renderer { mouse_hover: hover, ..*old(self) }),
    {
        self.mouse_hover = hover;
    }

    /// Whether the pointer is dragging over empty space, turning the camera.
    pub fn is_motion_on_empty_area(&self) -> (r: bool)
        ensures
            r == self.mouse_motion,
    {
        self.mouse_motion
    }

    /// Starts a drag over empty space.
    pub fn start_motion(&mut self)
        ensures
            *final(self) == (Renderer { mouse_motion: true, ..*old(self) }),
    {
        self.mouse_motion = true;
    }

    /// Ends a drag over empty space.
    pub fn stop_motion(&mut self)
        ensures
            *final(self) == (Renderer { mouse_motion: false, ..*old(self) }),
    {
        self.mouse_motion = false;
    }
}

} // verus!

verus! {

/// The visibility switches: one per body part, covering both of its shells, and one
/// per shell, covering all six parts.
#[derive(Copy, Clone, Debug, PartialEq, Eq, Structural)]
pub struct PartToggles {
    pub head: bool,
    pub torso: bool,
    pub right_arm: bool,
    pub left_arm: bool,
    pub right_leg: bool,
    pub left_leg: bool,
    pub inner_layer: bool,
    pub outer_layer: bool,
}

impl PartToggles {
    /// Whether a body part is to be shown: both its part switch and its shell
    /// switch are on.
    pub open spec fn spec_shown(self, part: BodyPart) -> bool {
        let layer = if part.spec_index() < 6 {
            self.inner_layer
        } else {
            self.outer_layer
        };
        let base = match part {
            BodyPart::Head | BodyPart::HeadOuter => self.head,
            BodyPart::Torso | BodyPart::TorsoOuter => self.torso,
            BodyPart::RightArm | BodyPart::RightArmOuter => self.right_arm,
            BodyPart::LeftArm | BodyPart::LeftArmOuter => self.left_arm,
            BodyPart::RightLeg | BodyPart::RightLegOuter => self.right_leg,
            BodyPart::LeftLeg | BodyPart::LeftLegOuter => self.left_leg,
        };
        layer && base
    }

    pub fn shown(&self, part: BodyPart) -> (r: bool)
        ensures
            r == self.spec_shown(part),
    {
        let layer = if part.index() < 6 {
            self.inner_layer
        } else {
            self.outer_layer
        };
        let base = match part {
            BodyPart::Head | BodyPart::HeadOuter => self.head,
            BodyPart::Torso | BodyPart::TorsoOuter => self.torso,
            BodyPart::RightArm | BodyPart::RightArmOuter => self.right_arm,
            BodyPart::LeftArm | BodyPart::LeftArmOuter => self.left_arm,
            BodyPart::RightLeg | BodyPart::RightLegOuter => self.right_leg,
            BodyPart::LeftLeg | BodyPart::LeftLegOuter => self.left_leg,
        };
        layer && base
    }
}

impl Renderer {
    /// Shows exactly the body parts that the switches select.
    pub fn apply_toggles(&mut self, toggles: &PartToggles)
        requires
            old(self).wf(),
        ensures
            final(self).wf(),
            forall|p: int| 0 <= p < 12 ==> #[trigger] final(self).visible_objects@[p] == toggles.spec_shown(BodyPart::from_spec_index(p)),
            final(self).model_objects == old(self).model_objects,
            final(self).model_type == old(self).model_type,
            final(self).grid == old(self).grid,
            final(self).mouse_hover == old(self).mouse_hover,
            final(self).mouse_motion == old(self).mouse_motion,
    {
        let mut p: usize = 0;
        while p < BODY_PART_COUNT
            invariant
                meshes_wf(self.model_type, self.model_objects@),
                self.visible_objects@.len() == 12,
                p <= 12,
                forall|q: int| 0 <= q < p ==> #[trigger] self.visible_objects@[q] == toggles.spec_shown(BodyPart::from_spec_index(q)),
                self.model_objects == old(self).model_objects,
                self.grid_objects == old(self).grid_objects,
                grids_wf(self.model_type, self.grid_objects@),
                self.model_type == old(self).model_type,
                self.grid == old(self).grid,
                self.mouse_hover == old(self).mouse_hover,
                self.mouse_motion == old(self).mouse_motion,
            decreases 12 - p,
        {
            let part = BodyPart::from_index(p);
            let shown = toggles.shown(part);
            self.set_body_part_active(&part, shown);
            p = p + 1;
        }
    }
}

} // verus!

verus! {

proof fn lemma_flatten_six(d: Seq<Seq<Color>>)
    requires
        d.len() == 6,
    ensures
        flatten_all(d) == crate::atlas::flatten_sides(d),
{
    reveal_with_fuel(flatten_all, 7);
    assert(d.drop_last().drop_last().drop_last().drop_last().drop_last().drop_last() =~= Seq::<Seq<Color>>::empty());
    assert(flatten_all(d) =~= crate::atlas::flatten_sides(d));
}

/// Round trip through the meshes: loading an atlas (all texels, transparent ones
/// too) and exporting the skin gives back the atlas, texel for texel, in either arm
/// variant, for every atlas whose texels outside the faces' rectangles are
/// transparent: export writes nothing there.
pub proof fn lemma_load_export_round_trip(model: ModelType, img: Seq<Color>)
    requires
        img.len() == 4096,
        forall|x: int, y: int|
            0 <= x < 64 && 0 <= y < 64 && !crate::atlas::covered(model, x, y) ==> #[trigger] atlas_pixel(img, x, y)
                == transparent(),
    ensures
        crate::atlas::encoded(model, loaded_cells(model, img, false)) == img,
{
    let flat = Seq::new(12, |p: int| crate::atlas::flatten_sides(decoded(model, img)[p]));
    assert forall|p: int| 0 <= p < 12 implies #[trigger] loaded_cells(model, img, false)[p] == flat[p] by {
        let d = decoded(model, img)[p];
        let part = BodyPart::from_spec_index(p);
        crate::atlas::lemma_decoded_sides(model, p, img);
        lemma_flatten_six(d);
        lemma_side_starts(model, part);
        assert(flat[p].len() == part_cells(model, part));
        assert(loaded_cells(model, img, false)[p] =~= flat[p]);
    }
    assert(loaded_cells(model, img, false) =~= flat);
    crate::atlas::lemma_round_trip(model, img);
}

} // verus!

verus! {

/// Switching from classic to slim and back to classic with no edit in between
/// leaves every cell of the head, torso and legs as it was, and every arm cell whose
/// column the slim layout keeps.
pub proof fn lemma_variant_round_trip(s: Cells)
    requires
        s.len() == 12,
        forall|p: int| 0 <= p < 12 ==> (#[trigger] s[p]).len() == part_cells(ModelType::Classic, BodyPart::from_spec_index(p)),
    ensures
        ({
            let back = remapped(ModelType::Slim, ModelType::Classic, remapped(ModelType::Classic, ModelType::Slim, s));
            &&& back.len() == 12
            &&& forall|p: int| 0 <= p < 12 && !BodyPart::from_spec_index(p).spec_is_arm() ==> #[trigger] back[p] == s[p]
            &&& forall|p: int, c: int|
                0 <= p < 12 && BodyPart::from_spec_index(p).spec_is_arm() && 0 <= c < 224
                    && crate::remap::classic_kept(BodyPart::from_spec_index(p).spec_side(), c) ==> #[trigger] back[p][c] == s[p][c]
        }),
{
    let back = remapped(ModelType::Slim, ModelType::Classic, remapped(ModelType::Classic, ModelType::Slim, s));
    assert forall|p: int, c: int|
        0 <= p < 12 && BodyPart::from_spec_index(p).spec_is_arm() && 0 <= c < 224
            && crate::remap::classic_kept(BodyPart::from_spec_index(p).spec_side(), c) implies #[trigger] back[p][c] == s[p][c] by {
        let part = BodyPart::from_spec_index(p);
        lemma_side_starts(ModelType::Classic, part);
        lemma_part_mesh(ModelType::Classic, part);
        crate::atlas::lemma_row_col(896int, 4int, 224int, 0int);
        crate::remap::lemma_arm_round_trip(part.spec_side(), s[p], fresh_cells(ModelType::Classic, part));
    }
}

} // verus!
