use vstd::prelude::*;
use vstd::arithmetic::div_mod::lemma_fundamental_div_mod_converse;

use crate::color::{Color, transparent};
use crate::codec::{decode_rgba, decoded_rgba, pixels_from_rgba, rgba_pixels};
use crate::geometry::{Vertex, VEC_IN_CELL, cell_colors};
use crate::taxonomy::{BodyPart, CubeSide, ModelType, BODY_PART_COUNT, SIDE_COUNT};

verus! {

/// Width and height of a skin texture, in texels.
pub const ATLAS_SIZE: u32 = 64;

/// A texel coordinate in the atlas.
#[derive(Copy, Clone, Debug, PartialEq, Eq, Structural)]
pub struct Point {
    pub x: u32,
    pub y: u32,
}

impl Point {
    pub fn new(x: u32, y: u32) -> (r: Point)
        ensures
            r == (Point { x, y }),
    {
        Point { x, y }
    }
}

/// Size of a rectangle of texels.
#[derive(Copy, Clone, Debug, PartialEq, Eq, Structural)]
pub struct Dimensions {
    pub width: u32,
    pub height: u32,
}

impl Dimensions {
    pub fn new(width: u32, height: u32) -> (r: Dimensions)
        ensures
            r == (Dimensions { width, height }),
    {
        Dimensions { width, height }
    }
}

/// The atlas rectangle that holds the texels of one face of one body part.
#[derive(Copy, Clone, Debug, PartialEq, Eq, Structural)]
pub struct SideMeta {
    pub position: Point,
    pub dimensions: Dimensions,
}

impl SideMeta {
    pub fn new(position: Point, dimensions: Dimensions) -> (r: SideMeta)
        ensures
            r == (SideMeta { position, dimensions }),
    {
        SideMeta { position, dimensions }
    }

    pub open spec fn rect(self) -> (int, int, int, int) {
        (
            self.position.x as int,
            self.position.y as int,
            self.dimensions.width as int,
            self.dimensions.height as int,
        )
    }
}

/// Top-left texel of the block of the atlas that belongs to a body part.
pub open spec fn part_origin(part: BodyPart) -> (int, int) {
    match part {
        BodyPart::Head => (0, 0),
        BodyPart::Torso => (16, 16),
        BodyPart::RightArm => (40, 16),
        BodyPart::LeftArm => (32, 48),
        BodyPart::RightLeg => (0, 16),
        BodyPart::LeftLeg => (16, 48),
        BodyPart::HeadOuter => (32, 0),
        BodyPart::TorsoOuter => (16, 32),
        BodyPart::RightArmOuter => (40, 32),
        BodyPart::LeftArmOuter => (48, 48),
        BodyPart::RightLegOuter => (0, 32),
        BodyPart::LeftLegOuter => (0, 48),
    }
}

/// Width, height and depth of a body part's cuboid, in texels.
pub open spec fn part_box(model: ModelType, part: BodyPart) -> (int, int, int) {
    match part {
        BodyPart::Head | BodyPart::HeadOuter => (8, 8, 8),
        BodyPart::Torso | BodyPart::TorsoOuter => (8, 12, 4),
        BodyPart::RightArm | BodyPart::LeftArm | BodyPart::RightArmOuter
        | BodyPart::LeftArmOuter => (
            if model == ModelType::Slim {
                3
            } else {
                4
            },
            12,
            4,
        ),
        _ => (4, 12, 4),
    }
}

/// The atlas rectangle `(x, y, width, height)` of one face of a body part. Around
/// the part's origin the faces lie as: top and bottom in the first band; right,
/// front, left and back side by side in the second.
pub open spec fn side_rect(model: ModelType, part: BodyPart, side: CubeSide) -> (int, int, int, int) {
    let (ox, oy) = part_origin(part);
    let (w, h, d) = part_box(model, part);
    match side {
        CubeSide::Front => (ox + d, oy + d, w, h),
        CubeSide::Left => (ox + d + w, oy + d, d, h),
        CubeSide::Back => (ox + 2 * d + w, oy + d, w, h),
        CubeSide::Right => (ox, oy + d, d, h),
        CubeSide::Top => (ox + d, oy, w, d),
        CubeSide::Bottom => (ox + d + w, oy, w, d),
    }
}

pub open spec fn in_rect(r: (int, int, int, int), x: int, y: int) -> bool {
    r.0 <= x < r.0 + r.2 && r.1 <= y < r.1 + r.3
}

/// Number of cells on one face of a body part.
pub open spec fn side_cells(model: ModelType, part: BodyPart, side: CubeSide) -> int {
    let r = side_rect(model, part, side);
    r.2 * r.3
}

/// Index of the first cell of the `i`-th face in a body part's cell list.
pub open spec fn side_start_at(model: ModelType, part: BodyPart, i: nat) -> int
    decreases i,
{
    if i == 0 {
        0
    } else {
        side_start_at(model, part, (i - 1) as nat) + side_cells(
            model,
            part,
            CubeSide::from_spec_index(i - 1),
        )
    }
}

pub open spec fn side_start(model: ModelType, part: BodyPart, side: CubeSide) -> int {
    side_start_at(model, part, side.spec_index())
}

/// Number of cells of a body part's mesh.
pub open spec fn part_cells(model: ModelType, part: BodyPart) -> int {
    side_start_at(model, part, 6)
}

pub proof fn lemma_side_rect_bounds(model: ModelType, part: BodyPart, side: CubeSide)
    ensures
        ({
            let r = side_rect(model, part, side);
            0 <= r.0 && 0 <= r.1 && 1 <= r.2 <= 8 && 1 <= r.3 <= 12 && r.0 + r.2 <= 64 && r.1
                + r.3 <= 64
        }),
{
}

pub proof fn lemma_side_starts(model: ModelType, part: BodyPart)
    ensures
        side_start(model, part, CubeSide::Front) == 0,
        side_start(model, part, CubeSide::Left) == side_cells(model, part, CubeSide::Front),
        side_start(model, part, CubeSide::Back) == side_start(model, part, CubeSide::Left)
            + side_cells(model, part, CubeSide::Left),
        side_start(model, part, CubeSide::Right) == side_start(model, part, CubeSide::Back)
            + side_cells(model, part, CubeSide::Back),
        side_start(model, part, CubeSide::Top) == side_start(model, part, CubeSide::Right)
            + side_cells(model, part, CubeSide::Right),
        side_start(model, part, CubeSide::Bottom) == side_start(model, part, CubeSide::Top)
            + side_cells(model, part, CubeSide::Top),
        part_cells(model, part) == side_start(model, part, CubeSide::Bottom) + side_cells(
            model,
            part,
            CubeSide::Bottom,
        ),
        part_cells(model, part) == part_cell_count(model, part),
{
    reveal_with_fuel(side_start_at, 7);
    assert(part_cells(model, part) == part_cell_count(model, part)) by (nonlinear_arith)
        requires
            part_cells(model, part) == side_cells(model, part, CubeSide::Front) + side_cells(model, part, CubeSide::Left)
                + side_cells(model, part, CubeSide::Back) + side_cells(model, part, CubeSide::Right)
                + side_cells(model, part, CubeSide::Top) + side_cells(model, part, CubeSide::Bottom),
    ;
}

/// Number of cells of a body part's mesh, by part and variant.
pub open spec fn part_cell_count(model: ModelType, part: BodyPart) -> int {
    match part {
        BodyPart::Head | BodyPart::HeadOuter => 384,
        BodyPart::Torso | BodyPart::TorsoOuter => 352,
        BodyPart::RightArm | BodyPart::LeftArm | BodyPart::RightArmOuter
        | BodyPart::LeftArmOuter => if model == ModelType::Slim {
            192
        } else {
            224
        },
        _ => 224,
    }
}

/// Splits a row-major offset into its row and column.
pub proof fn lemma_row_col(n: int, w: int, row: int, col: int)
    requires
        w > 0,
        0 <= col < w,
        n == row * w + col,
    ensures
        n / w == row,
        n % w == col,
{
    lemma_fundamental_div_mod_converse(n, w, row, col);
}

/// The atlas rectangle of a face, as stored in the parser's table.
pub fn side_meta_of(model: ModelType, part: BodyPart, side: CubeSide) -> (r: SideMeta)
    ensures
        r.rect() == side_rect(model, part, side),
{
    let (ox, oy): (u32, u32) = match part {
        BodyPart::Head => (0, 0),
        BodyPart::Torso => (16, 16),
        BodyPart::RightArm => (40, 16),
        BodyPart::LeftArm => (32, 48),
        BodyPart::RightLeg => (0, 16),
        BodyPart::LeftLeg => (16, 48),
        BodyPart::HeadOuter => (32, 0),
        BodyPart::TorsoOuter => (16, 32),
        BodyPart::RightArmOuter => (40, 32),
        BodyPart::LeftArmOuter => (48, 48),
        BodyPart::RightLegOuter => (0, 32),
        BodyPart::LeftLegOuter => (0, 48),
    };
    let (w, h, d): (u32, u32, u32) = match part {
        BodyPart::Head | BodyPart::HeadOuter => (8, 8, 8),
        BodyPart::Torso | BodyPart::TorsoOuter => (8, 12, 4),
        BodyPart::RightArm | BodyPart::LeftArm | BodyPart::RightArmOuter
        | BodyPart::LeftArmOuter => match model {
            ModelType::Slim => (3, 12, 4),
            ModelType::Classic => (4, 12, 4),
        },
        _ => (4, 12, 4),
    };
    match side {
        CubeSide::Front => SideMeta::new(Point::new(ox + d, oy + d), Dimensions::new(w, h)),
        CubeSide::Left => SideMeta::new(Point::new(ox + d + w, oy + d), Dimensions::new(d, h)),
        CubeSide::Back => SideMeta::new(Point::new(ox + 2 * d + w, oy + d), Dimensions::new(w, h)),
        CubeSide::Right => SideMeta::new(Point::new(ox, oy + d), Dimensions::new(d, h)),
        CubeSide::Top => SideMeta::new(Point::new(ox + d, oy), Dimensions::new(w, d)),
        CubeSide::Bottom => SideMeta::new(Point::new(ox + d + w, oy), Dimensions::new(w, d)),
    }
}

/// A raster image: `width * height` texels, row by row.
#[derive(Clone, Debug)]
pub struct Bitmap {
    pub width: u32,
    pub height: u32,
    pub pixels: Vec<Color>,
}

impl Bitmap {
    pub open spec fn wf(&self) -> bool {
        self.pixels@.len() == self.width * self.height
    }

    pub open spec fn is_atlas(&self) -> bool {
        self.width == 64 && self.height == 64 && self.pixels@.len() == 4096
    }

    /// A fully transparent 64x64 atlas.
    pub fn blank_atlas() -> (r: Bitmap)
        ensures
            r.wf(),
            r.is_atlas(),
            forall|i: int| 0 <= i < 4096 ==> #[trigger] r.pixels@[i] == transparent(),
    {
        let mut pixels: Vec<Color> = Vec::new();
        let mut i: usize = 0;
        while i < 4096
            invariant
                i <= 4096,
                pixels@.len() == i,
                forall|k: int| 0 <= k < i ==> #[trigger] pixels@[k] == transparent(),
            decreases 4096 - i,
        {
            pixels.push(Color::transparent());
            i = i + 1;
        }
        Bitmap { width: 64, height: 64, pixels }
    }

    /// The texel at column `x` of row `y` of an atlas.
    pub fn get_pixel(&self, x: u32, y: u32) -> (c: Color)
        requires
            self.is_atlas(),
            x < 64,
            y < 64,
        ensures
            c == atlas_pixel(self.pixels@, x as int, y as int),
    {
        self.pixels[(y * 64 + x) as usize]
    }

    /// Overwrites the texel at column `x` of row `y` of an atlas.
    pub fn put_pixel(&mut self, x: u32, y: u32, c: Color)
        requires
            old(self).is_atlas(),
            x < 64,
            y < 64,
        ensures
            final(self).is_atlas(),
            final(self).pixels@ == old(self).pixels@.update(y * 64 + x, c),
    {
        self.pixels.set((y * 64 + x) as usize, c);
    }
}

pub open spec fn atlas_pixel(img: Seq<Color>, x: int, y: int) -> Color {
    img[y * 64 + x]
}

/// The texels of an atlas rectangle, row by row.
pub open spec fn region_pixels(img: Seq<Color>, r: (int, int, int, int)) -> Seq<Color> {
    Seq::new((r.2 * r.3) as nat, |n: int| atlas_pixel(img, r.0 + n % r.2, r.1 + n / r.2))
}

/// What decoding an atlas yields: for each body part, for each face, the texels of
/// the face's rectangle, row by row.
pub open spec fn decoded(model: ModelType, img: Seq<Color>) -> Seq<Seq<Seq<Color>>> {
    Seq::new(
        12,
        |p: int|
            Seq::new(
                6,
                |s: int|
                    region_pixels(
                        img,
                        side_rect(model, BodyPart::from_spec_index(p), CubeSide::from_spec_index(s)),
                    ),
            ),
    )
}

/// The cell list of a body part: its faces' texels one face after another.
pub open spec fn flatten_sides(sides: Seq<Seq<Color>>) -> Seq<Color> {
    sides[0] + sides[1] + sides[2] + sides[3] + sides[4] + sides[5]
}

/// The texel at `(x, y)` that the first `ns` faces of a body part leave over `below`:
/// the cell of the last of those faces whose rectangle holds `(x, y)`.
pub open spec fn part_pixel(
    model: ModelType,
    part: BodyPart,
    cells: Seq<Color>,
    x: int,
    y: int,
    ns: nat,
    below: Color,
) -> Color
    decreases ns,
{
    if ns == 0 {
        below
    } else {
        let side = CubeSide::from_spec_index(ns - 1);
        let r = side_rect(model, part, side);
        if in_rect(r, x, y) {
            cells[side_start(model, part, side) + (y - r.1) * r.2 + (x - r.0)]
        } else {
            part_pixel(model, part, cells, x, y, (ns - 1) as nat, below)
        }
    }
}

/// The texel at `(x, y)` of an atlas encoded from the first `np` body parts' cells,
/// starting from a transparent atlas.
pub open spec fn texture_pixel(model: ModelType, cells: Seq<Seq<Color>>, x: int, y: int, np: nat) -> Color
    decreases np,
{
    if np == 0 {
        transparent()
    } else {
        part_pixel(
            model,
            BodyPart::from_spec_index(np - 1),
            cells[np - 1],
            x,
            y,
            6,
            texture_pixel(model, cells, x, y, (np - 1) as nat),
        )
    }
}

/// Whether `(x, y)` lies on one of the first `ns` faces of a body part.
pub open spec fn covered_sides(model: ModelType, part: BodyPart, x: int, y: int, ns: nat) -> bool
    decreases ns,
{
    if ns == 0 {
        false
    } else {
        in_rect(side_rect(model, part, CubeSide::from_spec_index(ns - 1)), x, y)
            || covered_sides(model, part, x, y, (ns - 1) as nat)
    }
}

/// Whether `(x, y)` lies on some face of one of the first `np` body parts.
pub open spec fn covered_parts(model: ModelType, x: int, y: int, np: nat) -> bool
    decreases np,
{
    if np == 0 {
        false
    } else {
        covered_sides(model, BodyPart::from_spec_index(np - 1), x, y, 6)
            || covered_parts(model, x, y, (np - 1) as nat)
    }
}

/// Whether `(x, y)` is a texel that some face of the model maps to.
pub open spec fn covered(model: ModelType, x: int, y: int) -> bool {
    covered_parts(model, x, y, 12)
}

/// The atlas encoded from the cells of all twelve body parts.
pub open spec fn encoded(model: ModelType, cells: Seq<Seq<Color>>) -> Seq<Color> {
    Seq::new(4096, |i: int| texture_pixel(model, cells, i % 64, i / 64, 12))
}

} // verus!

verus! {

/// The texels of one decoded skin: for each body part, for each face, the face's
/// texels row by row.
#[derive(Clone, Debug)]
pub struct ColorMap {
    pub parts: Vec<Vec<Vec<Color>>>,
}

impl View for ColorMap {
    type V = Seq<Seq<Seq<Color>>>;

    open spec fn view(&self) -> Seq<Seq<Seq<Color>>> {
        Seq::new(
            self.parts@.len(),
            |p: int| Seq::new(self.parts@[p]@.len(), |s: int| self.parts@[p]@[s]@),
        )
    }
}

/// Reads and writes the texels of each body part's faces in a 64x64 skin.
pub struct SkinParser {
    pub model_type: ModelType,
    pub helper_map: Vec<Vec<SideMeta>>,
}

pub open spec fn helper_map_wf(model: ModelType, map: Seq<Vec<SideMeta>>) -> bool {
    &&& map.len() == 12
    &&& forall|p: int| 0 <= p < 12 ==> (#[trigger] map[p])@.len() == 6
    &&& forall|p: int, s: int|
        0 <= p < 12 && 0 <= s < 6 ==> (#[trigger] map[p]@[s]).rect() == side_rect(
            model,
            BodyPart::from_spec_index(p),
            CubeSide::from_spec_index(s),
        )
}

impl SkinParser {
    pub open spec fn wf(&self) -> bool {
        helper_map_wf(self.model_type, self.helper_map@)
    }

    /// A parser for the atlas layout of the given arm variant.
    pub fn new(model_type: &ModelType) -> (r: SkinParser)
        ensures
            r.wf(),
            r.model_type == *model_type,
    {
        SkinParser { model_type: *model_type, helper_map: SkinParser::generate_helper_map(model_type) }
    }

    /// The atlas rectangle of every face of every body part, indexed by part and side.
    pub fn generate_helper_map(model_type: &ModelType) -> (r: Vec<Vec<SideMeta>>)
        ensures
            helper_map_wf(*model_type, r@),
    {
        let mut map: Vec<Vec<SideMeta>> = Vec::new();
        let mut p: usize = 0;
        while p < BODY_PART_COUNT
            invariant
                p <= 12,
                map@.len() == p,
                forall|q: int| 0 <= q < p ==> (#[trigger] map@[q])@.len() == 6,
                forall|q: int, s: int|
                    0 <= q < p && 0 <= s < 6 ==> (#[trigger] map@[q]@[s]).rect() == side_rect(
                        *model_type,
                        BodyPart::from_spec_index(q),
                        CubeSide::from_spec_index(s),
                    ),
            decreases 12 - p,
        {
            let part = BodyPart::from_index(p);
            let mut sides: Vec<SideMeta> = Vec::new();
            let mut s: usize = 0;
            while s < SIDE_COUNT
                invariant
                    p < 12,
                    s <= 6,
                    part == BodyPart::from_spec_index(p as int),
                    sides@.len() == s,
                    forall|t: int|
                        0 <= t < s ==> (#[trigger] sides@[t]).rect() == side_rect(
                            *model_type,
                            part,
                            CubeSide::from_spec_index(t),
                        ),
                decreases 6 - s,
            {
                let side = CubeSide::from_index(s);
                sides.push(side_meta_of(*model_type, part, side));
                s = s + 1;
            }
            map.push(sides);
            p = p + 1;
        }
        map
    }

    /// The texels of the rectangle at `(x, y)` of the given size, row by row.
    pub fn image_slice(&self, img: &Bitmap, x: u32, y: u32, width: u32, height: u32) -> (r: Vec<Color>)
        requires
            img.is_atlas(),
            x + width <= 64,
            y + height <= 64,
        ensures
            r@ == region_pixels(img.pixels@, (x as int, y as int, width as int, height as int)),
    {
        let ghost rect = (x as int, y as int, width as int, height as int);
        let mut slice: Vec<Color> = Vec::new();
        let mut i: u32 = y;
        while i < y + height
            invariant
                img.is_atlas(),
                x + width <= 64,
                y + height <= 64,
                y <= i <= y + height,
                rect == (x as int, y as int, width as int, height as int),
                slice@.len() == (i - y) * width,
                forall|n: int| 0 <= n < slice@.len() ==> #[trigger] slice@[n] == region_pixels(img.pixels@, rect)[n],
            decreases y + height - i,
        {
            let mut j: u32 = x;
            while j < x + width
                invariant
                    img.is_atlas(),
                    x + width <= 64,
                    y + height <= 64,
                    y <= i < y + height,
                    x <= j <= x + width,
                    rect == (x as int, y as int, width as int, height as int),
                    slice@.len() == (i - y) * width + (j - x),
                    forall|n: int| 0 <= n < slice@.len() ==> #[trigger] slice@[n] == region_pixels(img.pixels@, rect)[n],
                decreases x + width - j,
            {
                let ghost n = slice@.len() as int;
                proof {
                    lemma_row_col(n, width as int, (i - y) as int, (j - x) as int);
                    assert((i - y) * width + (j - x) < height * width) by (nonlinear_arith)
                        requires i - y < height, j - x < width, j >= x, i >= y;
                    assert(height * width == width * height) by (nonlinear_arith);
                }
                let pixel = img.get_pixel(j, i);
                assert(region_pixels(img.pixels@, rect)[n] == atlas_pixel(img.pixels@, j as int, i as int));
                slice.push(pixel);
                j = j + 1;
            }
            proof {
                assert((i - y) * width + width == (i + 1 - y) * width) by (nonlinear_arith);
            }
            i = i + 1;
        }
        proof {
            assert(height * width == width * height) by (nonlinear_arith);
        }
        assert(slice@ =~= region_pixels(img.pixels@, rect));
        slice
    }

    /// Cuts an atlas into the texels of each face of each body part.
    pub fn load_image(&self, img: &Bitmap) -> (r: Result<ColorMap, TextureLoadError>)
        requires
            self.wf(),
            img.wf(),
        ensures
            r.is_ok() == (img.width == 64 && img.height == 64),
            r matches Ok(cm) ==> cm@ == decoded(self.model_type, img.pixels@),
            r matches Err(e) ==> e == (TextureLoadError::ImageDimensionError {
                width: img.width,
                height: img.height,
            }),
    {
        if img.width != ATLAS_SIZE || img.height != ATLAS_SIZE {
            return Err(TextureLoadError::ImageDimensionError { width: img.width, height: img.height });
        }
        assert(img.width as int * img.height as int == 4096) by (nonlinear_arith)
            requires
                img.width == 64,
                img.height == 64,
        ;
        let ghost model = self.model_type;
        let mut parts: Vec<Vec<Vec<Color>>> = Vec::new();
        let mut p: usize = 0;
        while p < BODY_PART_COUNT
            invariant
                self.wf(),
                img.is_atlas(),
                model == self.model_type,
                p <= 12,
                parts@.len() == p,
                forall|q: int| 0 <= q < p ==> (#[trigger] parts@[q])@.len() == 6,
                forall|q: int, s: int|
                    0 <= q < p && 0 <= s < 6 ==> (#[trigger] parts@[q]@[s])@ == decoded(model, img.pixels@)[q][s],
            decreases 12 - p,
        {
            let mut sides: Vec<Vec<Color>> = Vec::new();
            let mut s: usize = 0;
            while s < SIDE_COUNT
                invariant
                    self.wf(),
                    img.is_atlas(),
                    model == self.model_type,
                    p < 12,
                    s <= 6,
                    sides@.len() == s,
                    forall|t: int| 0 <= t < s ==> (#[trigger] sides@[t])@ == decoded(model, img.pixels@)[p as int][t],
                decreases 6 - s,
            {
                let meta = self.helper_map[p][s];
                proof {
                    lemma_side_rect_bounds(model, BodyPart::from_spec_index(p as int), CubeSide::from_spec_index(s as int));
                }
                let colors = self.image_slice(img, meta.position.x, meta.position.y, meta.dimensions.width, meta.dimensions.height);
                sides.push(colors);
                s = s + 1;
            }
            parts.push(sides);
            p = p + 1;
        }
        let cm = ColorMap { parts };
        assert(cm@ =~~= decoded(model, img.pixels@));
        Ok(cm)
    }
}

impl SkinParser {
    /// Decodes an image file held in memory and cuts it into the texels of each face
    /// of each body part. Fails with the decoder's error when the bytes are no image,
    /// and with a dimension error when the image is not 64x64.
    pub fn load_from_bytes(&self, bytes: &[u8]) -> (r: Result<ColorMap, TextureLoadError>)
        requires
            self.wf(),
        ensures
            (r matches Err(TextureLoadError::Image(_))) <==> decoded_rgba(bytes@) is None,
            decoded_rgba(bytes@) matches Some((w, h, data)) ==> ({
                &&& r.is_ok() == (w == 64 && h == 64)
                &&& r matches Ok(cm) ==> cm@ == decoded(self.model_type, rgba_pixels(data))
                &&& r matches Err(e) ==> e == (TextureLoadError::ImageDimensionError {
                    width: w,
                    height: h,
                })
            }),
    {
        match decode_rgba(bytes) {
            Err(e) => Err(TextureLoadError::Image(e)),
            Ok((width, height, data)) => {
                let pixels = pixels_from_rgba(&data);
                proof {
                    let wh = width as int * height as int;
                    assert(4 * width * height == 4 * wh) by (nonlinear_arith)
                        requires
                            wh == width as int * height as int,
                    ;
                    lemma_row_col(4 * wh, 4, wh, 0);
                }
                let img = Bitmap { width, height, pixels };
                self.load_image(&img)
            },
        }
    }

    /// Writes texels, row by row, into the rectangle at `(x, y)` of the given size.
    pub fn export_pixels(
        &self,
        imgbuf: &mut Bitmap,
        pixels: &Vec<Color>,
        x: u32,
        y: u32,
        width: u32,
        height: u32,
    )
        requires
            old(imgbuf).is_atlas(),
            x + width <= 64,
            y + height <= 64,
            pixels@.len() == width * height,
        ensures
            final(imgbuf).is_atlas(),
            forall|px: int, py: int|
                0 <= px < 64 && 0 <= py < 64 ==> #[trigger] atlas_pixel(final(imgbuf).pixels@, px, py) == if in_rect(
                    (x as int, y as int, width as int, height as int),
                    px,
                    py,
                ) {
                    pixels@[(py - y) * width + (px - x)]
                } else {
                    atlas_pixel(old(imgbuf).pixels@, px, py)
                },
    {
        let ghost before = imgbuf.pixels@;
        let mut i: u32 = 0;
        while i < height
            invariant
                imgbuf.is_atlas(),
                x + width <= 64,
                y + height <= 64,
                pixels@.len() == width * height,
                i <= height,
                forall|px: int, py: int|
                    0 <= px < 64 && 0 <= py < 64 ==> #[trigger] atlas_pixel(imgbuf.pixels@, px, py) == if in_rect(
                        (x as int, y as int, width as int, i as int),
                        px,
                        py,
                    ) {
                        pixels@[(py - y) * width + (px - x)]
                    } else {
                        atlas_pixel(before, px, py)
                    },
            decreases height - i,
        {
            let mut j: u32 = 0;
            while j < width
                invariant
                    imgbuf.is_atlas(),
                    x + width <= 64,
                    y + height <= 64,
                    pixels@.len() == width * height,
                    i < height,
                    j <= width,
                    forall|px: int, py: int|
                        0 <= px < 64 && 0 <= py < 64 ==> #[trigger] atlas_pixel(imgbuf.pixels@, px, py) == if in_rect(
                            (x as int, y as int, width as int, i as int),
                            px,
                            py,
                        ) || (py == y + i && x <= px < x + j) {
                            pixels@[(py - y) * width + (px - x)]
                        } else {
                            atlas_pixel(before, px, py)
                        },
                decreases width - j,
            {
                proof {
                    assert(i * width + j < width * height && width * height <= 4096) by (nonlinear_arith)
                        requires
                            i < height,
                            j < width,
                            x + width <= 64,
                            y + height <= 64,
                    ;
                }
                let index = (i * width + j) as usize;
                let pixel = pixels[index];
                let ghost prev = imgbuf.pixels@;
                imgbuf.put_pixel(x + j, y + i, pixel);
                assert forall|px: int, py: int| 0 <= px < 64 && 0 <= py < 64 implies #[trigger] atlas_pixel(
                    imgbuf.pixels@,
                    px,
                    py,
                ) == if in_rect((x as int, y as int, width as int, i as int), px, py) || (py == y + i && x
                    <= px < x + j + 1) {
                    pixels@[(py - y) * width + (px - x)]
                } else {
                    atlas_pixel(before, px, py)
                } by {
                    if px == x + j && py == y + i {
                        assert((py - y) * width + (px - x) == i * width + j);
                    } else {
                        assert(py * 64 + px != (y + i) * 64 + (x + j));
                        assert(atlas_pixel(imgbuf.pixels@, px, py) == atlas_pixel(prev, px, py));
                    }
                }
                j = j + 1;
            }
            i = i + 1;
        }
    }

    /// Writes the cell colors of one body part's mesh into that part's faces of an
    /// atlas. The mesh's cells run face by face in layout order, each face row by row.
    pub fn export_as(&self, body_part: &BodyPart, imgbuf: &mut Bitmap, vertexes: &Vec<Vertex>)
        requires
            self.wf(),
            old(imgbuf).is_atlas(),
            vertexes@.len() >= 4 * part_cells(self.model_type, *body_part),
        ensures
            final(imgbuf).is_atlas(),
            forall|px: int, py: int|
                0 <= px < 64 && 0 <= py < 64 ==> #[trigger] atlas_pixel(final(imgbuf).pixels@, px, py)
                    == part_pixel(
                    self.model_type,
                    *body_part,
                    cell_colors(vertexes@),
                    px,
                    py,
                    6,
                    atlas_pixel(old(imgbuf).pixels@, px, py),
                ),
    {
        let ghost model = self.model_type;
        let ghost before = imgbuf.pixels@;
        let ghost cells = cell_colors(vertexes@);
        let p = body_part.index();
        proof {
            lemma_side_starts(model, *body_part);
            assert(BodyPart::from_spec_index(p as int) == *body_part);
        }
        let mut vec_passed: usize = 0;
        let mut s: usize = 0;
        while s < SIDE_COUNT
            invariant
                self.wf(),
                model == self.model_type,
                cells == cell_colors(vertexes@),
                p < 12,
                BodyPart::from_spec_index(p as int) == *body_part,
                imgbuf.is_atlas(),
                vertexes@.len() >= 4 * part_cells(model, *body_part),
                s <= 6,
                vec_passed == side_start_at(model, *body_part, s as nat),
                side_start_at(model, *body_part, s as nat) <= part_cells(model, *body_part),
                forall|px: int, py: int|
                    0 <= px < 64 && 0 <= py < 64 ==> #[trigger] atlas_pixel(imgbuf.pixels@, px, py)
                        == part_pixel(model, *body_part, cells, px, py, s as nat, atlas_pixel(before, px, py)),
            decreases 6 - s,
        {
            let meta = self.helper_map[p][s];
            let ghost side = CubeSide::from_spec_index(s as int);
            proof {
                lemma_side_rect_bounds(model, *body_part, side);
                lemma_side_starts(model, *body_part);
                assert(side.spec_index() == s);
                assert(side_start_at(model, *body_part, (s + 1) as nat) <= part_cells(model, *body_part));
            }
            let count = (meta.dimensions.width * meta.dimensions.height) as usize;
            let mut side_pixels: Vec<Color> = Vec::new();
            let mut n: usize = 0;
            while n < count
                invariant
                    count == meta.dimensions.width * meta.dimensions.height,
                    vec_passed + count <= part_cells(model, *body_part),
                    part_cells(model, *body_part) <= 384,
                    vertexes@.len() >= 4 * part_cells(model, *body_part),
                    cells == cell_colors(vertexes@),
                    n <= count,
                    side_pixels@.len() == n,
                    forall|k: int| 0 <= k < n ==> #[trigger] side_pixels@[k] == cells[vec_passed + k],
                decreases count - n,
            {
                side_pixels.push(vertexes[(vec_passed + n) * VEC_IN_CELL].color);
                n = n + 1;
            }
            let ghost prev = imgbuf.pixels@;
            self.export_pixels(
                imgbuf,
                &side_pixels,
                meta.position.x,
                meta.position.y,
                meta.dimensions.width,
                meta.dimensions.height,
            );
            assert forall|px: int, py: int| 0 <= px < 64 && 0 <= py < 64 implies #[trigger] atlas_pixel(
                imgbuf.pixels@,
                px,
                py,
            ) == part_pixel(model, *body_part, cells, px, py, (s + 1) as nat, atlas_pixel(before, px, py)) by {
                assert(atlas_pixel(prev, px, py) == part_pixel(model, *body_part, cells, px, py, s as nat, atlas_pixel(before, px, py)));
                let r = side_rect(model, *body_part, side);
                if in_rect(r, px, py) {
                    assert((py - r.1) * r.2 + (px - r.0) < r.2 * r.3) by (nonlinear_arith)
                        requires
                            r.1 <= py < r.1 + r.3,
                            r.0 <= px < r.0 + r.2,
                    ;
                }
            }
            vec_passed = vec_passed + count;
            s = s + 1;
        }
    }
}

/// Why a skin could not be loaded.
#[derive(Debug)]
pub enum TextureLoadError {
    /// The bytes are not an image that could be decoded.
    Image(image::ImageError),
    /// The image is not 64x64.
    ImageDimensionError { width: u32, height: u32 },
}

} // verus!

verus! {

/// Index into a body part's cell list: cell `off` of a face sits after the cells of
/// the faces before it.
pub proof fn lemma_flatten_index(model: ModelType, part: BodyPart, sides: Seq<Seq<Color>>, side: CubeSide, off: int)
    requires
        sides.len() == 6,
        forall|t: int| 0 <= t < 6 ==> (#[trigger] sides[t]).len() == side_cells(model, part, CubeSide::from_spec_index(t)),
        0 <= off < side_cells(model, part, side),
    ensures
        flatten_sides(sides)[side_start(model, part, side) + off] == sides[side.spec_index() as int][off],
{
    lemma_side_starts(model, part);
    assert(sides[0].len() == side_cells(model, part, CubeSide::Front));
    assert(sides[1].len() == side_cells(model, part, CubeSide::Left));
    assert(sides[2].len() == side_cells(model, part, CubeSide::Back));
    assert(sides[3].len() == side_cells(model, part, CubeSide::Right));
    assert(sides[4].len() == side_cells(model, part, CubeSide::Top));
    assert(sides[5].len() == side_cells(model, part, CubeSide::Bottom));
}

pub proof fn lemma_decoded_sides(model: ModelType, p: int, img: Seq<Color>)
    requires
        0 <= p < 12,
    ensures
        decoded(model, img)[p].len() == 6,
        forall|t: int| 0 <= t < 6 ==> (#[trigger] decoded(model, img)[p][t]).len() == side_cells(
            model,
            BodyPart::from_spec_index(p),
            CubeSide::from_spec_index(t),
        ),
{
}

proof fn lemma_decoded_cell(model: ModelType, p: int, img: Seq<Color>, side: CubeSide, dx: int, dy: int)
    requires
        0 <= p < 12,
        0 <= dx < side_rect(model, BodyPart::from_spec_index(p), side).2,
        0 <= dy < side_rect(model, BodyPart::from_spec_index(p), side).3,
    ensures
        ({
            let r = side_rect(model, BodyPart::from_spec_index(p), side);
            flatten_sides(decoded(model, img)[p])[side_start(model, BodyPart::from_spec_index(p), side) + dy * r.2 + dx]
                == atlas_pixel(img, r.0 + dx, r.1 + dy)
        }),
{
    let part = BodyPart::from_spec_index(p);
    let r = side_rect(model, part, side);
    let sides = decoded(model, img)[p];
    let off = dy * r.2 + dx;
    assert(0 <= off < r.2 * r.3) by (nonlinear_arith)
        requires
            0 <= dy < r.3,
            0 <= dx < r.2,
            off == dy * r.2 + dx,
    ;
    lemma_decoded_sides(model, p, img);
    lemma_flatten_index(model, part, sides, side, off);
    lemma_row_col(off, r.2, dy, dx);
    assert(sides[side.spec_index() as int] == region_pixels(img, r));
}

proof fn lemma_part_pixel_decoded(model: ModelType, p: int, img: Seq<Color>, x: int, y: int, ns: nat, below: Color)
    requires
        0 <= p < 12,
        ns <= 6,
    ensures
        part_pixel(model, BodyPart::from_spec_index(p), flatten_sides(decoded(model, img)[p]), x, y, ns, below)
            == if covered_sides(model, BodyPart::from_spec_index(p), x, y, ns) {
            atlas_pixel(img, x, y)
        } else {
            below
        },
    decreases ns,
{
    if ns > 0 {
        let part = BodyPart::from_spec_index(p);
        let side = CubeSide::from_spec_index(ns - 1);
        let r = side_rect(model, part, side);
        lemma_part_pixel_decoded(model, p, img, x, y, (ns - 1) as nat, below);
        if in_rect(r, x, y) {
            lemma_decoded_cell(model, p, img, side, x - r.0, y - r.1);
        }
    }
}

proof fn lemma_texture_pixel_decoded(model: ModelType, img: Seq<Color>, x: int, y: int, np: nat)
    requires
        img.len() == 4096,
        np <= 12,
    ensures
        texture_pixel(model, Seq::new(12, |p: int| flatten_sides(decoded(model, img)[p])), x, y, np)
            == if covered_parts(model, x, y, np) {
            atlas_pixel(img, x, y)
        } else {
            transparent()
        },
    decreases np,
{
    if np > 0 {
        let cells = Seq::new(12, |p: int| flatten_sides(decoded(model, img)[p]));
        lemma_texture_pixel_decoded(model, img, x, y, (np - 1) as nat);
        lemma_part_pixel_decoded(
            model,
            np - 1,
            img,
            x,
            y,
            6,
            texture_pixel(model, cells, x, y, (np - 1) as nat),
        );
    }
}

/// Round trip: decoding an atlas and encoding the decoded cells again gives back
/// the atlas, texel for texel, for either arm variant. Encoding starts from a
/// transparent atlas, so this holds of the atlases whose texels outside every
/// face's rectangle are transparent.
pub proof fn lemma_round_trip(model: ModelType, img: Seq<Color>)
    requires
        img.len() == 4096,
        forall|x: int, y: int|
            0 <= x < 64 && 0 <= y < 64 && !covered(model, x, y) ==> #[trigger] atlas_pixel(img, x, y)
                == transparent(),
    ensures
        encoded(model, Seq::new(12, |p: int| flatten_sides(decoded(model, img)[p]))) == img,
{
    let cells = Seq::new(12, |p: int| flatten_sides(decoded(model, img)[p]));
    let e = encoded(model, cells);
    assert forall|i: int| 0 <= i < 4096 implies #[trigger] e[i] == img[i] by {
        let x = i % 64;
        let y = i / 64;
        vstd::arithmetic::div_mod::lemma_fundamental_div_mod(i, 64);
        vstd::arithmetic::div_mod::lemma_mod_bound(i, 64);
        assert(atlas_pixel(img, x, y) == img[i]);
        lemma_texture_pixel_decoded(model, img, x, y, 12);
    }
    assert(e =~= img);
}

} // verus!

verus! {

/// Round trip of one body part: with the part's cells decoded from an atlas, export
/// writes back every texel of every face rectangle of that part exactly as the atlas
/// had it, whatever lay below.
pub proof fn lemma_part_round_trip(
    model: ModelType,
    p: int,
    img: Seq<Color>,
    side: CubeSide,
    x: int,
    y: int,
    below: Color,
)
    requires
        0 <= p < 12,
        in_rect(side_rect(model, BodyPart::from_spec_index(p), side), x, y),
    ensures
        part_pixel(model, BodyPart::from_spec_index(p), flatten_sides(decoded(model, img)[p]), x, y, 6, below)
            == atlas_pixel(img, x, y),
{
    let part = BodyPart::from_spec_index(p);
    reveal_with_fuel(covered_sides, 7);
    assert(covered_sides(model, part, x, y, 6)) by {
        assert(side == CubeSide::from_spec_index(side.spec_index() as int));
    }
    lemma_part_pixel_decoded(model, p, img, x, y, 6, below);
}

} // verus!
