use vstd::prelude::*;

use crate::atlas::lemma_row_col;
use crate::color::{Color, transparent};
use crate::geometry::{Position, Vertex, cell_colors, VEC_IN_CELL};

verus! {

/// Where each vertex of a list is.
pub open spec fn positions(v: Seq<Vertex>) -> Seq<Position> {
    Seq::new(v.len(), |j: int| v[j].position)
}

pub open spec fn vertex_color(v: Seq<Vertex>, j: int) -> Color {
    v[j].color
}

/// Every vertex has the color of its cell: cells are painted whole.
pub open spec fn cells_uniform(v: Seq<Vertex>) -> bool {
    &&& v.len() % 4 == 0
    &&& forall|j: int| 0 <= j < v.len() ==> #[trigger] vertex_color(v, j) == cell_colors(v)[j / 4]
}

/// The mesh of one body part: four vertices per cell, one color per cell.
#[derive(Clone, Debug)]
pub struct ModelObject {
    pub vertexes: Vec<Vertex>,
}

proof fn lemma_cell_of(j: int, c: int)
    requires
        4 * c <= j < 4 * c + 4,
    ensures
        j / 4 == c,
{
    lemma_row_col(j, 4, c, j - 4 * c);
}

proof fn lemma_cell_in_range(len: int, c: int)
    requires
        0 <= c < len / 4,
        0 <= len,
    ensures
        4 * c + 4 <= len,
{
    vstd::arithmetic::div_mod::lemma_fundamental_div_mod(len, 4);
    vstd::arithmetic::div_mod::lemma_mod_bound(len, 4);
}

impl ModelObject {
    pub open spec fn wf(&self) -> bool {
        cells_uniform(self.vertexes@)
    }

    /// The color of each cell, in storage order.
    pub open spec fn cells(&self) -> Seq<Color> {
        cell_colors(self.vertexes@)
    }

    pub open spec fn cell_count(&self) -> nat {
        self.vertexes@.len() / 4
    }

    /// A mesh over the given vertices, whose cells must each be of one color.
    pub fn new(vertexes: &Vec<Vertex>) -> (r: ModelObject)
        requires
            cells_uniform(vertexes@),
        ensures
            r.wf(),
            r.vertexes@ == vertexes@,
    {
        ModelObject { vertexes: copy_vertexes(vertexes) }
    }

    /// A copy of the mesh's vertices.
    pub fn get_vertexes(&self) -> (r: Vec<Vertex>)
        ensures
            r@ == self.vertexes@,
    {
        copy_vertexes(&self.vertexes)
    }

    /// Sets the color of all four vertices of a cell. An index past the last cell
    /// changes nothing.
    pub fn paint(&mut self, cell: usize, color: Color)
        requires
            old(self).wf(),
        ensures
            final(self).wf(),
            final(self).vertexes@.len() == old(self).vertexes@.len(),
            final(self).cells() == if cell < old(self).cell_count() {
                old(self).cells().update(cell as int, color)
            } else {
                old(self).cells()
            },
            positions(final(self).vertexes@) == positions(old(self).vertexes@),
    {
        if cell >= self.vertexes.len() / VEC_IN_CELL {
            return;
        }
        let ghost before = self.vertexes@;
        let index = cell * VEC_IN_CELL;
        let mut k: usize = 0;
        while k < VEC_IN_CELL
            invariant
                index == 4 * cell,
                cell < before.len() / 4,
                before.len() % 4 == 0,
                k <= 4,
                self.vertexes@.len() == before.len(),
                forall|j: int|
                    0 <= j < before.len() ==> (#[trigger] self.vertexes@[j]).position == before[j].position
                        && self.vertexes@[j].color == if index <= j < index + k {
                        color
                    } else {
                        before[j].color
                    },
            decreases 4 - k,
        {
            let mut v = self.vertexes[index + k];
            v.color = color;
            self.vertexes.set(index + k, v);
            k = k + 1;
        }
        let ghost after = self.vertexes@;
        assert forall|j: int| 0 <= j < after.len() implies #[trigger] vertex_color(after, j) == cell_colors(
            after,
        )[j / 4] by {
            vstd::arithmetic::div_mod::lemma_fundamental_div_mod(j, 4);
            vstd::arithmetic::div_mod::lemma_mod_bound(j, 4);
            if index <= j < index + 4 {
                lemma_cell_of(j, cell as int);
            } else {
                assert(vertex_color(before, j) == cell_colors(before)[j / 4]);
            }
        }
        assert forall|i: int| 0 <= i < after.len() / 4 implies #[trigger] cell_colors(after)[i] == (
        if cell < before.len() / 4 {
            cell_colors(before).update(cell as int, color)
        } else {
            cell_colors(before)
        })[i] by {}
        assert(cell_colors(after) =~= cell_colors(before).update(cell as int, color));
        assert(positions(after) =~= positions(before));
    }

    /// Makes every cell fully transparent.
    pub fn clear(&mut self)
        requires
            old(self).wf(),
        ensures
            final(self).wf(),
            final(self).vertexes@.len() == old(self).vertexes@.len(),
            forall|i: int| 0 <= i < final(self).cell_count() ==> #[trigger] final(self).cells()[i] == transparent(),
            positions(final(self).vertexes@) == positions(old(self).vertexes@),
    {
        let ghost before = self.vertexes@;
        let mut j: usize = 0;
        while j < self.vertexes.len()
            invariant
                self.vertexes@.len() == before.len(),
                before.len() % 4 == 0,
                j <= before.len(),
                forall|i: int|
                    0 <= i < before.len() ==> (#[trigger] self.vertexes@[i]).position == before[i].position
                        && self.vertexes@[i].color == if i < j {
                        transparent()
                    } else {
                        before[i].color
                    },
            decreases before.len() - j,
        {
            let mut v = self.vertexes[j];
            v.color = Color::transparent();
            self.vertexes.set(j, v);
            j = j + 1;
        }
        let ghost after = self.vertexes@;
        assert forall|i: int| 0 <= i < after.len() implies #[trigger] vertex_color(after, i) == cell_colors(
            after,
        )[i / 4] by {
            vstd::arithmetic::div_mod::lemma_fundamental_div_mod(i, 4);
            vstd::arithmetic::div_mod::lemma_mod_bound(i, 4);
        }
        assert(positions(after) =~= positions(before));
    }

    /// The color of a cell.
    pub fn get_pixel(&self, cell: usize) -> (c: Color)
        requires
            self.wf(),
            cell < self.cell_count(),
        ensures
            c == self.cells()[cell as int],
    {
        let len = self.vertexes.len();
        proof {
            lemma_cell_in_range(len as int, cell as int);
        }
        self.vertexes[VEC_IN_CELL * cell].color
    }

    /// The color of every cell, in storage order.
    pub fn get_pixels(&self) -> (r: Vec<Color>)
        requires
            self.wf(),
        ensures
            r@ == self.cells(),
    {
        let n = self.vertexes.len() / VEC_IN_CELL;
        let mut out: Vec<Color> = Vec::new();
        let mut i: usize = 0;
        while i < n
            invariant
                self.wf(),
                n == self.cell_count(),
                self.vertexes@.len() <= usize::MAX,
                i <= n,
                out@.len() == i,
                forall|k: int| 0 <= k < i ==> #[trigger] out@[k] == self.cells()[k],
            decreases n - i,
        {
            proof {
                lemma_cell_in_range(self.vertexes@.len() as int, i as int);
            }
            out.push(self.vertexes[VEC_IN_CELL * i].color);
            i = i + 1;
        }
        assert(out@ =~= self.cells());
        out
    }

    /// Paints the cells from a decoded face list, cell after cell. With
    /// `ignore_transparent`, cells whose new color is fully transparent keep their
    /// color.
    pub fn set_pixels(&mut self, color_map: &Vec<Vec<Color>>, ignore_transparent: bool)
        requires
            old(self).wf(),
            flatten_all(deep_view(color_map@)).len() <= usize::MAX,
        ensures
            final(self).wf(),
            final(self).vertexes@.len() == old(self).vertexes@.len(),
            final(self).cells() == overlay(old(self).cells(), flatten_all(deep_view(color_map@)), ignore_transparent),
            positions(final(self).vertexes@) == positions(old(self).vertexes@),
    {
        let ghost before = self.cells();
        let ghost vs = deep_view(color_map@);
        let mut cell: usize = 0;
        let mut s: usize = 0;
        while s < color_map.len()
            invariant
                self.wf(),
                vs == deep_view(color_map@),
                s <= color_map@.len(),
                cell == flatten_all(vs.take(s as int)).len(),
                flatten_all(vs).len() <= usize::MAX,
                self.cells() == overlay(before, flatten_all(vs.take(s as int)), ignore_transparent),
                self.vertexes@.len() == old(self).vertexes@.len(),
                positions(self.vertexes@) == positions(old(self).vertexes@),
            decreases color_map@.len() - s,
        {
            let pixels = &color_map[s];
            let ghost done = flatten_all(vs.take(s as int));
            proof {
                lemma_flatten_prefix_len(vs, s + 1);
                assert(vs.take(s + 1).drop_last() =~= vs.take(s as int));
            }
            let mut n: usize = 0;
            while n < pixels.len()
                invariant
                    self.wf(),
                    vs == deep_view(color_map@),
                    s < color_map@.len(),
                    pixels@ == vs[s as int],
                    done == flatten_all(vs.take(s as int)),
                    n <= pixels@.len(),
                    cell == done.len() + n,
                    done.len() + pixels@.len() <= flatten_all(vs).len(),
                    flatten_all(vs).len() <= usize::MAX,
                    self.cells() == overlay(before, done + pixels@.take(n as int), ignore_transparent),
                    self.vertexes@.len() == old(self).vertexes@.len(),
                    positions(self.vertexes@) == positions(old(self).vertexes@),
                decreases pixels@.len() - n,
            {
                let pixel = pixels[n];
                let ghost cur = self.cells();
                if !(ignore_transparent && pixel.a == 0) {
                    self.paint(cell, pixel);
                }
                proof {
                    lemma_overlay_push(before, done + pixels@.take(n as int), pixel, ignore_transparent);
                    assert(done + pixels@.take(n as int) + seq![pixel] =~= done + pixels@.take(n + 1));
                }
                cell = cell + 1;
                n = n + 1;
            }
            proof {
                assert(pixels@.take(pixels@.len() as int) =~= pixels@);
                assert(vs.take(s + 1).drop_last() =~= vs.take(s as int));
            }
            s = s + 1;
        }
        proof {
            assert(vs.take(color_map@.len() as int) =~= vs);
        }
    }
}

/// Copies a vertex list.
fn copy_vertexes(v: &Vec<Vertex>) -> (r: Vec<Vertex>)
    ensures
        r@ == v@,
{
    let mut out: Vec<Vertex> = Vec::new();
    let mut i: usize = 0;
    while i < v.len()
        invariant
            i <= v@.len(),
            out@ == v@.take(i as int),
        decreases v@.len() - i,
    {
        out.push(v[i]);
        i = i + 1;
        assert(out@ =~= v@.take(i as int));
    }
    assert(v@.take(v@.len() as int) =~= v@);
    out
}

pub open spec fn deep_view(v: Seq<Vec<Color>>) -> Seq<Seq<Color>> {
    Seq::new(v.len(), |i: int| v[i]@)
}

/// All lists, one after another.
pub open spec fn flatten_all(v: Seq<Seq<Color>>) -> Seq<Color>
    decreases v.len(),
{
    if v.len() == 0 {
        Seq::empty()
    } else {
        flatten_all(v.drop_last()) + v.last()
    }
}

/// Cells after painting `colors` over `cells` from the first cell on: a color past
/// the last cell is dropped, and with `ignore_transparent` a fully transparent
/// color leaves its cell as it was.
pub open spec fn overlay(cells: Seq<Color>, colors: Seq<Color>, ignore_transparent: bool) -> Seq<Color> {
    Seq::new(
        cells.len(),
        |i: int|
            if i < colors.len() && !(ignore_transparent && colors[i].a == 0) {
                colors[i]
            } else {
                cells[i]
            },
    )
}

proof fn lemma_overlay_push(cells: Seq<Color>, colors: Seq<Color>, c: Color, ignore_transparent: bool)
    ensures
        overlay(cells, colors + seq![c], ignore_transparent) == if !(ignore_transparent && c.a == 0)
            && colors.len() < cells.len() {
            overlay(cells, colors, ignore_transparent).update(colors.len() as int, c)
        } else {
            overlay(cells, colors, ignore_transparent)
        },
{
    let a = overlay(cells, colors + seq![c], ignore_transparent);
    let b = if !(ignore_transparent && c.a == 0) && colors.len() < cells.len() {
        overlay(cells, colors, ignore_transparent).update(colors.len() as int, c)
    } else {
        overlay(cells, colors, ignore_transparent)
    };
    assert(a =~= b);
}

proof fn lemma_flatten_prefix_len(vs: Seq<Seq<Color>>, s: int)
    requires
        0 <= s <= vs.len(),
    ensures
        flatten_all(vs.take(s)).len() <= flatten_all(vs).len(),
    decreases vs.len() - s,
{
    if s < vs.len() {
        lemma_flatten_prefix_len(vs, s + 1);
        assert(vs.take(s + 1).drop_last() =~= vs.take(s));
    } else {
        assert(vs.take(s) =~= vs);
    }
}

} // verus!
