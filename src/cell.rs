use vstd::prelude::*;

use crate::color::Color;
use crate::taxonomy::BodyPart;

verus! {

/// One cell of one body part's mesh, with a color: what picking finds and what an
/// edit writes.
#[derive(Copy, Clone, Debug, PartialEq, Eq, Structural)]
pub struct ModelCell {
    pub body_part: BodyPart,
    pub cell_index: usize,
    pub color: Color,
}

impl ModelCell {
    pub open spec fn spec_same_cell(self, other: ModelCell) -> bool {
        self.body_part == other.body_part && self.cell_index == other.cell_index
    }

    /// Whether both name the same cell of the same body part, whatever their colors.
    pub fn same_cell(&self, other: ModelCell) -> (r: bool)
        ensures
            r == self.spec_same_cell(other),
    {
        self.body_part == other.body_part && self.cell_index == other.cell_index
    }
}

/// The colors of every cell of a skin, indexed by body part, then cell.
pub type Cells = Seq<Seq<Color>>;

/// Whether a cell names `(p, i)`.
pub open spec fn hits(c: ModelCell, p: int, i: int) -> bool {
    c.body_part.spec_index() == p && c.cell_index == i
}

/// `s` with one cell recolored; a cell past the end of its part changes nothing.
pub open spec fn set_cell(s: Cells, c: ModelCell) -> Cells {
    let p = c.body_part.spec_index() as int;
    if p < s.len() && c.cell_index < s[p].len() {
        s.update(p, s[p].update(c.cell_index as int, c.color))
    } else {
        s
    }
}

/// `s` with each cell of a list recolored, first to last.
pub open spec fn paint_all(s: Cells, list: Seq<ModelCell>) -> Cells
    decreases list.len(),
{
    if list.len() == 0 {
        s
    } else {
        set_cell(paint_all(s, list.drop_last()), list.last())
    }
}

/// The same cells, all of one color.
pub open spec fn recolor(list: Seq<ModelCell>, color: Color) -> Seq<ModelCell> {
    Seq::new(list.len(), |k: int| ModelCell { color, ..list[k] })
}

/// `s` with every cell of color `from` turned to `to`.
pub open spec fn replaced(s: Cells, from: Color, to: Color) -> Cells {
    Seq::new(s.len(), |p: int| Seq::new(s[p].len(), |i: int| if s[p][i] == from { to } else { s[p][i] }))
}

/// The cells among the first `n` of part `p` whose color is `color`, in order.
pub open spec fn part_matches(s: Cells, p: int, color: Color, n: nat) -> Seq<ModelCell>
    decreases n,
{
    if n == 0 {
        Seq::empty()
    } else {
        let i = n - 1;
        part_matches(s, p, color, (n - 1) as nat) + if s[p][i] == color {
            seq![ModelCell { body_part: BodyPart::from_spec_index(p), cell_index: i as usize, color }]
        } else {
            Seq::empty()
        }
    }
}

/// The cells of the first `np` parts whose color is `color`, part by part, in order.
pub open spec fn all_matches(s: Cells, color: Color, np: nat) -> Seq<ModelCell>
    decreases np,
{
    if np == 0 {
        Seq::empty()
    } else {
        all_matches(s, color, (np - 1) as nat) + part_matches(s, np - 1, color, s[np - 1].len())
    }
}

/// Same shape: as many parts, each with as many cells.
pub open spec fn same_shape(a: Cells, b: Cells) -> bool {
    a.len() == b.len() && forall|p: int| 0 <= p < a.len() ==> (#[trigger] a[p]).len() == b[p].len()
}

pub proof fn lemma_set_cell_at(s: Cells, c: ModelCell, p: int, i: int)
    requires
        0 <= p < s.len(),
        0 <= i < s[p].len(),
    ensures
        same_shape(set_cell(s, c), s),
        set_cell(s, c)[p][i] == if hits(c, p, i) {
            c.color
        } else {
            s[p][i]
        },
{
}

/// What painting a list leaves in one cell: unchanged when no entry names it, and
/// the entries' color when all entries that name it agree on one.
pub proof fn lemma_paint_all_at(s: Cells, list: Seq<ModelCell>, p: int, i: int, color: Color)
    requires
        0 <= p < s.len(),
        0 <= i < s[p].len(),
        forall|k: int| 0 <= k < list.len() && hits(#[trigger] list[k], p, i) ==> list[k].color == color,
    ensures
        same_shape(paint_all(s, list), s),
        paint_all(s, list)[p][i] == if exists|k: int| 0 <= k < list.len() && hits(#[trigger] list[k], p, i) {
            color
        } else {
            s[p][i]
        },
    decreases list.len(),
{
    if list.len() > 0 {
        let rest = list.drop_last();
        assert forall|k: int| 0 <= k < rest.len() && hits(#[trigger] rest[k], p, i) implies rest[k].color == color by {
            assert(rest[k] == list[k]);
        }
        lemma_paint_all_at(s, rest, p, i, color);
        lemma_set_cell_at(paint_all(s, rest), list.last(), p, i);
        if exists|k: int| 0 <= k < rest.len() && hits(#[trigger] rest[k], p, i) {
            let k = choose|k: int| 0 <= k < rest.len() && hits(#[trigger] rest[k], p, i);
            assert(list[k] == rest[k]);
        }
        if exists|k: int| 0 <= k < list.len() && hits(#[trigger] list[k], p, i) {
            let k = choose|k: int| 0 <= k < list.len() && hits(#[trigger] list[k], p, i);
            if k < rest.len() {
                assert(rest[k] == list[k]);
            }
        }
        assert forall|q: int| 0 <= q < s.len() implies (#[trigger] paint_all(s, list)[q]).len() == s[q].len() by {
            assert(paint_all(s, rest)[q].len() == s[q].len());
        }
    }
}

pub proof fn lemma_paint_all_shape(s: Cells, list: Seq<ModelCell>)
    ensures
        same_shape(paint_all(s, list), s),
    decreases list.len(),
{
    if list.len() > 0 {
        lemma_paint_all_shape(s, list.drop_last());
    }
}

} // verus!

verus! {

/// Part and cell indices of a skin fit in `usize`, and it has twelve parts.
pub open spec fn skin_shape(s: Cells) -> bool {
    s.len() == 12 && forall|p: int| 0 <= p < 12 ==> (#[trigger] s[p]).len() <= usize::MAX
}

pub proof fn lemma_part_matches(s: Cells, p: int, color: Color, n: nat)
    requires
        skin_shape(s),
        0 <= p < 12,
        n <= s[p].len(),
    ensures
        forall|k: int|
            0 <= k < part_matches(s, p, color, n).len() ==> {
                let c = #[trigger] part_matches(s, p, color, n)[k];
                &&& c.body_part.spec_index() == p
                &&& c.cell_index < n
                &&& s[p][c.cell_index as int] == color
                &&& c.color == color
            },
        forall|i: int|
            0 <= i < n && s[p][i] == color ==> exists|k: int|
                0 <= k < part_matches(s, p, color, n).len() && hits(#[trigger] part_matches(s, p, color, n)[k], p, i),
    decreases n,
{
    if n > 0 {
        let prev = part_matches(s, p, color, (n - 1) as nat);
        let cur = part_matches(s, p, color, n);
        lemma_part_matches(s, p, color, (n - 1) as nat);
        assert(BodyPart::from_spec_index(p).spec_index() == p);
        assert forall|k: int| 0 <= k < prev.len() implies cur[k] == prev[k] by {}
        assert forall|i: int| 0 <= i < n && s[p][i] == color implies exists|k: int|
            0 <= k < cur.len() && hits(#[trigger] cur[k], p, i) by {
            if i < n - 1 {
                let k = choose|k: int| 0 <= k < prev.len() && hits(#[trigger] prev[k], p, i);
                assert(cur[k] == prev[k]);
            } else {
                assert(hits(cur[prev.len() as int], p, i));
            }
        }
    }
}

pub proof fn lemma_all_matches(s: Cells, color: Color, np: nat)
    requires
        skin_shape(s),
        np <= 12,
    ensures
        forall|k: int|
            0 <= k < all_matches(s, color, np).len() ==> {
                let c = #[trigger] all_matches(s, color, np)[k];
                let p = c.body_part.spec_index() as int;
                &&& p < np
                &&& c.cell_index < s[p].len()
                &&& s[p][c.cell_index as int] == color
                &&& c.color == color
            },
        forall|p: int, i: int|
            0 <= p < np && 0 <= i < s[p].len() && s[p][i] == color ==> exists|k: int|
                0 <= k < all_matches(s, color, np).len() && hits(#[trigger] all_matches(s, color, np)[k], p, i),
    decreases np,
{
    if np > 0 {
        let q = np - 1;
        let prev = all_matches(s, color, q as nat);
        let tail = part_matches(s, q, color, s[q].len());
        let cur = all_matches(s, color, np);
        lemma_all_matches(s, color, q as nat);
        lemma_part_matches(s, q, color, s[q].len());
        assert(cur == prev + tail);
        assert forall|k: int| 0 <= k < cur.len() implies {
            let c = #[trigger] cur[k];
            let p = c.body_part.spec_index() as int;
            &&& p < np
            &&& c.cell_index < s[p].len()
            &&& s[p][c.cell_index as int] == color
            &&& c.color == color
        } by {
            if k < prev.len() {
                assert(cur[k] == prev[k]);
            } else {
                assert(cur[k] == tail[k - prev.len()]);
            }
        }
        assert forall|p: int, i: int| 0 <= p < np && 0 <= i < s[p].len() && s[p][i] == color implies exists|k: int|
            0 <= k < cur.len() && hits(#[trigger] cur[k], p, i) by {
            if p < q {
                let k = choose|k: int| 0 <= k < prev.len() && hits(#[trigger] prev[k], p, i);
                assert(cur[k] == prev[k]);
            } else {
                let k = choose|k: int| 0 <= k < tail.len() && hits(#[trigger] tail[k], p, i);
                assert(cur[prev.len() + k] == tail[k]);
            }
        }
    }
}

} // verus!
