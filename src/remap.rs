use vstd::prelude::*;

use crate::atlas::lemma_row_col;
use crate::color::Color;
use crate::mesh::{ModelObject, positions};
use crate::taxonomy::{BodyPart, Side};

verus! {

/// Cells of a classic arm mesh.
pub const CLASSIC_ARM_CELLS: usize = 224;

/// Cells of a slim arm mesh.
pub const SLIM_ARM_CELLS: usize = 192;

/// Layout of face `b` (in layout order) of an arm in both variants: first cell in
/// the slim mesh, columns in the slim mesh, first cell in the classic mesh, rows,
/// and which classic column becomes the first slim column. Classic faces are four
/// columns wide; the front, back, top and bottom of a slim arm are three wide, and
/// the column they lose is the one on the arm's outer edge.
pub open spec fn band(side: Side, b: int) -> (int, int, int, int, int) {
    let outer_first = if side == Side::Right { 1int } else { 0int };
    if b == 0 {
        (0, 3, 0, 12, outer_first)
    } else if b == 1 {
        (36, 4, 48, 12, 0)
    } else if b == 2 {
        (84, 3, 96, 12, 1 - outer_first)
    } else if b == 3 {
        (120, 4, 144, 12, 0)
    } else if b == 4 {
        (168, 3, 192, 4, outer_first)
    } else {
        (180, 3, 208, 4, outer_first)
    }
}

/// The face of a slim arm that slim cell `k` lies on.
pub open spec fn slim_band(k: int) -> int {
    if k < 36 {
        0
    } else if k < 84 {
        1
    } else if k < 120 {
        2
    } else if k < 168 {
        3
    } else if k < 180 {
        4
    } else {
        5
    }
}

/// The face of a classic arm that classic cell `c` lies on.
pub open spec fn classic_band(c: int) -> int {
    if c < 48 {
        0
    } else if c < 96 {
        1
    } else if c < 144 {
        2
    } else if c < 192 {
        3
    } else if c < 208 {
        4
    } else {
        5
    }
}

/// The classic cell that slim cell `k` shows: same face, same row, same column
/// counted from the kept columns.
pub open spec fn slim_to_classic_index(side: Side, k: int) -> int {
    let (sb, w, cb, h, first) = band(side, slim_band(k));
    cb + 4 * ((k - sb) / w) + first + (k - sb) % w
}

/// Whether classic cell `c` has a counterpart in the slim layout.
pub open spec fn classic_kept(side: Side, c: int) -> bool {
    let (sb, w, cb, h, first) = band(side, classic_band(c));
    first <= (c - cb) % 4 < first + w
}

/// The slim cell that shows classic cell `c`, when it is kept.
pub open spec fn classic_to_slim_index(side: Side, c: int) -> int {
    let (sb, w, cb, h, first) = band(side, classic_band(c));
    sb + w * ((c - cb) / 4) + (c - cb) % 4 - first
}

/// Slim arm cells laid out from classic arm cells.
pub open spec fn classic_to_slim_cells(side: Side, classic: Seq<Color>) -> Seq<Color> {
    Seq::new(192, |k: int| classic[slim_to_classic_index(side, k)])
}

/// Classic arm cells laid out from slim arm cells; cells of the column that the slim
/// layout lacks keep their color in `base`.
pub open spec fn slim_to_classic_cells(side: Side, slim: Seq<Color>, base: Seq<Color>) -> Seq<Color> {
    Seq::new(
        224,
        |c: int|
            if classic_kept(side, c) {
                slim[classic_to_slim_index(side, c)]
            } else {
                base[c]
            },
    )
}

pub open spec fn arm_side(part: BodyPart) -> Side {
    part.spec_side()
}

/// Which side of the body an arm is on.
pub fn arm_side_of(part: BodyPart) -> (r: Side)
    ensures
        r == arm_side(part),
{
    match part {
        BodyPart::LeftArm | BodyPart::LeftArmOuter | BodyPart::LeftLeg | BodyPart::LeftLegOuter => Side::Left,
        _ => Side::Right,
    }
}

fn band_of(side: Side, b: usize) -> (r: (usize, usize, usize, usize, usize))
    requires
        b < 6,
    ensures
        (r.0 as int, r.1 as int, r.2 as int, r.3 as int, r.4 as int) == band(side, b as int),
{
    let outer_first: usize = match side {
        Side::Right => 1,
        Side::Left => 0,
    };
    if b == 0 {
        (0, 3, 0, 12, outer_first)
    } else if b == 1 {
        (36, 4, 48, 12, 0)
    } else if b == 2 {
        (84, 3, 96, 12, 1 - outer_first)
    } else if b == 3 {
        (120, 4, 144, 12, 0)
    } else if b == 4 {
        (168, 3, 192, 4, outer_first)
    } else {
        (180, 3, 208, 4, outer_first)
    }
}

proof fn lemma_slim_index_bounds(side: Side, k: int)
    requires
        0 <= k < 192,
    ensures
        0 <= slim_to_classic_index(side, k) < 224,
        classic_band(slim_to_classic_index(side, k)) == slim_band(k),
        classic_kept(side, slim_to_classic_index(side, k)),
        classic_to_slim_index(side, slim_to_classic_index(side, k)) == k,
{
    let (sb, w, cb, h, first) = band(side, slim_band(k));
    let n = (k - sb) / w;
    let m = (k - sb) % w;
    vstd::arithmetic::div_mod::lemma_fundamental_div_mod(k - sb, w);
    vstd::arithmetic::div_mod::lemma_mod_bound(k - sb, w);
    assert(0 <= n < h) by {
        vstd::arithmetic::div_mod::lemma_div_pos_is_pos(k - sb, w);
        if n >= h {
            assert(w * n >= w * h) by (nonlinear_arith)
                requires
                    n >= h,
                    w > 0,
            ;
        }
    }
    let c = cb + 4 * n + first + m;
    lemma_row_col(c - cb, 4, n, first + m);
}

/// The slim cell that shows each classic cell.
fn slim_source(side: Side, k: usize) -> (r: usize)
    requires
        k < 192,
    ensures
        r == slim_to_classic_index(side, k as int),
        r < 224,
{
    proof {
        lemma_slim_index_bounds(side, k as int);
    }
    let b: usize = if k < 36 {
        0
    } else if k < 84 {
        1
    } else if k < 120 {
        2
    } else if k < 168 {
        3
    } else if k < 180 {
        4
    } else {
        5
    };
    let (sb, w, cb, _h, first) = band_of(side, b);
    cb + 4 * ((k - sb) / w) + first + (k - sb) % w
}

/// Copies the cells of a classic arm onto a slim arm, face by face and row by row,
/// dropping the outer-edge column of the front, back, top and bottom faces.
pub fn classic_to_slim_arm(classic_arm: &ModelObject, slim_arm: &mut ModelObject, arm_side: BodyPart)
    requires
        arm_side.spec_is_arm(),
        classic_arm.wf(),
        old(slim_arm).wf(),
        classic_arm.cell_count() == 224,
        old(slim_arm).cell_count() == 192,
    ensures
        final(slim_arm).wf(),
        final(slim_arm).vertexes@.len() == old(slim_arm).vertexes@.len(),
        final(slim_arm).cells() == classic_to_slim_cells(arm_side.spec_side(), classic_arm.cells()),
        positions(final(slim_arm).vertexes@) == positions(old(slim_arm).vertexes@),
{
    let side = arm_side_of(arm_side);
    let colors = classic_arm.get_pixels();
    let ghost target = classic_to_slim_cells(side, classic_arm.cells());
    let mut k: usize = 0;
    while k < SLIM_ARM_CELLS
        invariant
            slim_arm.wf(),
            slim_arm.cell_count() == 192,
            slim_arm.vertexes@.len() == old(slim_arm).vertexes@.len(),
            colors@ == classic_arm.cells(),
            colors@.len() == 224,
            target == classic_to_slim_cells(side, classic_arm.cells()),
            k <= 192,
            forall|i: int| 0 <= i < k ==> #[trigger] slim_arm.cells()[i] == target[i],
            positions(slim_arm.vertexes@) == positions(old(slim_arm).vertexes@),
        decreases 192 - k,
    {
        let source = slim_source(side, k);
        slim_arm.paint(k, colors[source]);
        k = k + 1;
    }
    assert(slim_arm.cells() =~= target);
}

/// Where each classic cell's color comes from, if the slim layout has it.
fn classic_source(side: Side, c: usize) -> (r: Option<usize>)
    requires
        c < 224,
    ensures
        r == if classic_kept(side, c as int) {
            Some(classic_to_slim_index(side, c as int) as usize)
        } else {
            None
        },
        r matches Some(k) ==> k < 192,
{
    let b: usize = if c < 48 {
        0
    } else if c < 96 {
        1
    } else if c < 144 {
        2
    } else if c < 192 {
        3
    } else if c < 208 {
        4
    } else {
        5
    };
    let (sb, w, cb, _h, first) = band_of(side, b);
    let col = (c - cb) % 4;
    if first <= col && col < first + w {
        proof {
            vstd::arithmetic::div_mod::lemma_fundamental_div_mod((c - cb) as int, 4);
            vstd::arithmetic::div_mod::lemma_mod_bound((c - cb) as int, 4);
            let n = (c - cb) as int / 4;
            assert(n < band(side, b as int).3);
            assert(w * n + w <= w * band(side, b as int).3) by (nonlinear_arith)
                requires
                    n < band(side, b as int).3,
                    w > 0,
            ;
        }
        Some(sb + w * ((c - cb) / 4) + col - first)
    } else {
        None
    }
}

/// Copies the cells of a slim arm onto a classic arm, face by face and row by row.
/// The classic column that the slim layout lacks keeps its color.
pub fn slim_to_classic_arm(slim_arm: &ModelObject, classic_arm: &mut ModelObject, arm_side: BodyPart)
    requires
        arm_side.spec_is_arm(),
        slim_arm.wf(),
        old(classic_arm).wf(),
        slim_arm.cell_count() == 192,
        old(classic_arm).cell_count() == 224,
    ensures
        final(classic_arm).wf(),
        final(classic_arm).vertexes@.len() == old(classic_arm).vertexes@.len(),
        final(classic_arm).cells() == slim_to_classic_cells(arm_side.spec_side(), slim_arm.cells(), old(classic_arm).cells()),
        positions(final(classic_arm).vertexes@) == positions(old(classic_arm).vertexes@),
{
    let side = arm_side_of(arm_side);
    let colors = slim_arm.get_pixels();
    let ghost target = slim_to_classic_cells(side, slim_arm.cells(), classic_arm.cells());
    let mut c: usize = 0;
    while c < CLASSIC_ARM_CELLS
        invariant
            classic_arm.wf(),
            classic_arm.cell_count() == 224,
            classic_arm.vertexes@.len() == old(classic_arm).vertexes@.len(),
            colors@ == slim_arm.cells(),
            colors@.len() == 192,
            target == slim_to_classic_cells(side, slim_arm.cells(), old(classic_arm).cells()),
            c <= 224,
            forall|i: int| 0 <= i < c ==> #[trigger] classic_arm.cells()[i] == target[i],
            forall|i: int| c <= i < 224 ==> #[trigger] classic_arm.cells()[i] == old(classic_arm).cells()[i],
            positions(classic_arm.vertexes@) == positions(old(classic_arm).vertexes@),
        decreases 224 - c,
    {
        let ghost prev = classic_arm.cells();
        match classic_source(side, c) {
            Some(k) => {
                classic_arm.paint(c, colors[k]);
                assert(classic_arm.cells() == prev.update(c as int, colors@[k as int]));
            },
            None => {
                assert(target[c as int] == old(classic_arm).cells()[c as int]);
            },
        }
        assert(classic_arm.cells()[c as int] == target[c as int]);
        c = c + 1;
    }
    assert(classic_arm.cells() =~= target);
}

/// Switching an arm from classic to slim and back leaves every classic cell that the
/// slim layout keeps as it was, whatever the meshes built in between held.
pub proof fn lemma_arm_round_trip(side: Side, classic: Seq<Color>, base: Seq<Color>)
    requires
        classic.len() == 224,
        base.len() == 224,
    ensures
        forall|c: int|
            0 <= c < 224 && classic_kept(side, c) ==> #[trigger] slim_to_classic_cells(
                side,
                classic_to_slim_cells(side, classic),
                base,
            )[c] == classic[c],
        forall|k: int| 0 <= k < 192 ==> classic_kept(side, #[trigger] slim_to_classic_index(side, k)),
{
    assert forall|c: int| 0 <= c < 224 && classic_kept(side, c) implies #[trigger] slim_to_classic_cells(
        side,
        classic_to_slim_cells(side, classic),
        base,
    )[c] == classic[c] by {
        let (sb, w, cb, h, first) = band(side, classic_band(c));
        let n = (c - cb) / 4;
        let col = (c - cb) % 4;
        vstd::arithmetic::div_mod::lemma_fundamental_div_mod(c - cb, 4);
        vstd::arithmetic::div_mod::lemma_mod_bound(c - cb, 4);
        let k = classic_to_slim_index(side, c);
        assert(0 <= n < h);
        assert(w * n + w <= w * h) by (nonlinear_arith)
            requires
                n < h,
                w > 0,
        ;
        assert(0 <= k < 192);
        lemma_row_col(k - sb, w, n, col - first);
        assert(slim_band(k) == classic_band(c));
    }
    assert forall|k: int| 0 <= k < 192 implies classic_kept(side, #[trigger] slim_to_classic_index(side, k)) by {
        lemma_slim_index_bounds(side, k);
    }
}

} // verus!
