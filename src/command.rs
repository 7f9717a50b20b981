use vstd::prelude::*;

use crate::cell::{
    Cells, ModelCell, all_matches, hits, lemma_all_matches, lemma_paint_all_at, skin_shape, lemma_paint_all_shape, lemma_set_cell_at,
    paint_all, recolor, replaced, same_shape, set_cell,
};
use crate::atlas::{lemma_side_rect_bounds, lemma_side_starts, part_cells, side_cells, side_rect};
use crate::color::Color;
use crate::renderer::{Renderer, side_range, side_snapshot};
use crate::taxonomy::{BodyPart, CubeSide, ModelType};

verus! {

/// One undoable edit, holding what it needs to undo itself.
#[derive(Debug)]
pub enum Command {
    /// Paint one cell: the cell as it was, and as it becomes.
    Draw { prev: ModelCell, new: ModelCell },
    /// Paint a whole face of one part: the new color and every cell of the face as
    /// it was.
    Fill { body_part: BodyPart, fill_color: Color, prev_colors: Vec<ModelCell> },
    /// Turn every cell of one color into another: the cells found, as they were, are
    /// recorded each time the edit is carried out.
    Replace { old_color: Color, new_color: Color, replaced_cells: Vec<ModelCell> },
}

/// What a command holds, as values.
pub enum CommandView {
    Draw { prev: ModelCell, new: ModelCell },
    Fill { body_part: BodyPart, fill_color: Color, prev_colors: Seq<ModelCell> },
    Replace { old_color: Color, new_color: Color, replaced_cells: Seq<ModelCell> },
}

impl View for Command {
    type V = CommandView;

    open spec fn view(&self) -> CommandView {
        match self {
            Command::Draw { prev, new } => CommandView::Draw { prev: *prev, new: *new },
            Command::Fill { body_part, fill_color, prev_colors } => CommandView::Fill {
                body_part: *body_part,
                fill_color: *fill_color,
                prev_colors: prev_colors@,
            },
            Command::Replace { old_color, new_color, replaced_cells } => CommandView::Replace {
                old_color: *old_color,
                new_color: *new_color,
                replaced_cells: replaced_cells@,
            },
        }
    }
}

impl CommandView {
    /// A draw paints the very cell it records; fills and replaces are always well
    /// formed.
    pub open spec fn wf(self) -> bool {
        self matches CommandView::Draw { prev, new } ==> prev.spec_same_cell(new)
    }
}

/// The cells after carrying a command out.
pub open spec fn forward(c: CommandView, s: Cells) -> Cells {
    match c {
        CommandView::Draw { new, .. } => set_cell(s, new),
        CommandView::Fill { fill_color, prev_colors, .. } => paint_all(s, recolor(prev_colors, fill_color)),
        CommandView::Replace { old_color, new_color, .. } => replaced(s, old_color, new_color),
    }
}

/// The command once carried out on `s`: a replace records the cells it found.
pub open spec fn executed(c: CommandView, s: Cells) -> CommandView {
    match c {
        CommandView::Replace { old_color, new_color, .. } => CommandView::Replace {
            old_color,
            new_color,
            replaced_cells: all_matches(s, old_color, 12),
        },
        _ => c,
    }
}

/// The cells after undoing a command: every recorded cell painted back.
pub open spec fn inverse(c: CommandView, s: Cells) -> Cells {
    match c {
        CommandView::Draw { prev, .. } => set_cell(s, prev),
        CommandView::Fill { prev_colors, .. } => paint_all(s, prev_colors),
        CommandView::Replace { replaced_cells, .. } => paint_all(s, replaced_cells),
    }
}

/// Whether a cell exists in `s` and has the color it records.
pub open spec fn recorded(s: Cells, c: ModelCell) -> bool {
    let p = c.body_part.spec_index() as int;
    c.cell_index < s[p].len() && s[p][c.cell_index as int] == c.color
}

/// Whether a command, as about to be carried out on `s`, records `s` truly: a draw
/// records one existing cell with its color, a fill every cell it lists with its
/// color; a replace records what it finds when carried out.
pub open spec fn fits(c: CommandView, s: Cells) -> bool {
    match c {
        CommandView::Draw { prev, new } => prev.spec_same_cell(new) && recorded(s, prev),
        CommandView::Fill { prev_colors, .. } => forall|k: int| 0 <= k < prev_colors.len() ==> recorded(s, #[trigger] prev_colors[k]),
        CommandView::Replace { .. } => true,
    }
}


impl Command {
    /// A draw of one picked cell in a new color.
    pub fn pencil(target_cell: ModelCell, new_color: Color) -> (r: Command)
        ensures
            r@ == (CommandView::Draw { prev: target_cell, new: ModelCell { color: new_color, ..target_cell } }),
    {
        Command::Draw { prev: target_cell, new: ModelCell { color: new_color, ..target_cell } }
    }

    /// A fill of a face, from the face's cells as they are.
    pub fn fill(body_part: &BodyPart, fill_color: &Color, prev_colors: Vec<ModelCell>) -> (r: Command)
        ensures
            r@ == (CommandView::Fill { body_part: *body_part, fill_color: *fill_color, prev_colors: prev_colors@ }),
    {
        Command::Fill { body_part: *body_part, fill_color: *fill_color, prev_colors }
    }

    /// A replace of one color by another, not carried out yet.
    pub fn replace(old_color: Color, new_color: Color) -> (r: Command)
        ensures
            r@ == (CommandView::Replace { old_color, new_color, replaced_cells: Seq::empty() }),
    {
        Command::Replace { old_color, new_color, replaced_cells: Vec::new() }
    }

    /// Carries the command out on the meshes.
    pub fn execute(&mut self, renderer: &mut Renderer)
        requires
            old(renderer).wf(),
        ensures
            final(renderer).wf(),
            final(renderer).cells() == forward(old(self)@, old(renderer).cells()),
            final(self)@ == executed(old(self)@, old(renderer).cells()),
            final(renderer).model_type == old(renderer).model_type,
            final(renderer).visible_objects == old(renderer).visible_objects,
            final(renderer).grid == old(renderer).grid,
            final(renderer).mouse_hover == old(renderer).mouse_hover,
            final(renderer).mouse_motion == old(renderer).mouse_motion,
    {
        match self {
            Command::Draw { new, .. } => {
                renderer.set_cell(new);
            },
            Command::Fill { fill_color, prev_colors, .. } => {
                paint_cells(renderer, prev_colors, Some(*fill_color));
            },
            Command::Replace { old_color, new_color, replaced_cells } => {
                *replaced_cells = renderer.replace(*old_color, *new_color);
            },
        }
    }

    /// Undoes the command on the meshes, painting back every cell it recorded.
    pub fn undo(&self, renderer: &mut Renderer)
        requires
            old(renderer).wf(),
        ensures
            final(renderer).wf(),
            final(renderer).cells() == inverse(self@, old(renderer).cells()),
            final(renderer).model_type == old(renderer).model_type,
            final(renderer).visible_objects == old(renderer).visible_objects,
            final(renderer).grid == old(renderer).grid,
            final(renderer).mouse_hover == old(renderer).mouse_hover,
            final(renderer).mouse_motion == old(renderer).mouse_motion,
    {
        match self {
            Command::Draw { prev, .. } => {
                renderer.set_cell(prev);
            },
            Command::Fill { prev_colors, .. } => {
                paint_cells(renderer, prev_colors, None);
            },
            Command::Replace { replaced_cells, .. } => {
                paint_cells(renderer, replaced_cells, None);
            },
        }
    }

    /// Carries the command out again after an undo.
    pub fn redo(&mut self, renderer: &mut Renderer)
        requires
            old(renderer).wf(),
        ensures
            final(renderer).wf(),
            final(renderer).cells() == forward(old(self)@, old(renderer).cells()),
            final(self)@ == executed(old(self)@, old(renderer).cells()),
            final(renderer).model_type == old(renderer).model_type,
            final(renderer).visible_objects == old(renderer).visible_objects,
            final(renderer).grid == old(renderer).grid,
            final(renderer).mouse_hover == old(renderer).mouse_hover,
            final(renderer).mouse_motion == old(renderer).mouse_motion,
    {
        self.execute(renderer);
    }
}

/// Paints each listed cell, in order, in its own color or in `color` when given.
fn paint_cells(renderer: &mut Renderer, cells: &Vec<ModelCell>, color: Option<Color>)
    requires
        old(renderer).wf(),
    ensures
        final(renderer).wf(),
        final(renderer).cells() == paint_all(
            old(renderer).cells(),
            match color {
                Some(c) => recolor(cells@, c),
                None => cells@,
            },
        ),
        final(renderer).model_type == old(renderer).model_type,
        final(renderer).visible_objects == old(renderer).visible_objects,
        final(renderer).grid == old(renderer).grid,
        final(renderer).mouse_hover == old(renderer).mouse_hover,
        final(renderer).mouse_motion == old(renderer).mouse_motion,
{
    let ghost list = match color {
        Some(c) => recolor(cells@, c),
        None => cells@,
    };
    let mut k: usize = 0;
    while k < cells.len()
        invariant
            renderer.wf(),
            list.len() == cells@.len(),
            list == match color {
                Some(c) => recolor(cells@, c),
                None => cells@,
            },
            k <= cells@.len(),
            renderer.cells() == paint_all(old(renderer).cells(), list.take(k as int)),
            renderer.model_type == old(renderer).model_type,
            renderer.visible_objects == old(renderer).visible_objects,
            renderer.grid == old(renderer).grid,
            renderer.mouse_hover == old(renderer).mouse_hover,
            renderer.mouse_motion == old(renderer).mouse_motion,
        decreases cells@.len() - k,
    {
        let cell = match color {
            Some(c) => ModelCell { color: c, ..cells[k] },
            None => cells[k],
        };
        renderer.set_cell(&cell);
        proof {
            assert(list.take(k + 1).drop_last() =~= list.take(k as int));
            assert(list.take(k + 1).last() == cell);
        }
        k = k + 1;
    }
    assert(list.take(k as int) =~= list);
}

} // verus!

verus! {

proof fn lemma_recolor_hits(list: Seq<ModelCell>, color: Color, p: int, i: int)
    ensures
        (exists|k: int| 0 <= k < recolor(list, color).len() && hits(#[trigger] recolor(list, color)[k], p, i))
            == (exists|k: int| 0 <= k < list.len() && hits(#[trigger] list[k], p, i)),
{
    if exists|k: int| 0 <= k < list.len() && hits(#[trigger] list[k], p, i) {
        let k = choose|k: int| 0 <= k < list.len() && hits(#[trigger] list[k], p, i);
        assert(hits(recolor(list, color)[k], p, i));
    }
    if exists|k: int| 0 <= k < recolor(list, color).len() && hits(#[trigger] recolor(list, color)[k], p, i) {
        let k = choose|k: int| 0 <= k < recolor(list, color).len() && hits(#[trigger] recolor(list, color)[k], p, i);
        assert(hits(list[k], p, i));
    }
}

pub proof fn lemma_forward_shape(c: CommandView, s: Cells)
    ensures
        same_shape(forward(c, s), s),
{
    match c {
        CommandView::Draw { new, .. } => {
            assert forall|p: int| 0 <= p < s.len() implies (#[trigger] forward(c, s)[p]).len() == s[p].len() by {}
        },
        CommandView::Fill { fill_color, prev_colors, .. } => {
            lemma_paint_all_shape(s, recolor(prev_colors, fill_color));
        },
        CommandView::Replace { .. } => {},
    }
}

pub proof fn lemma_inverse_shape(c: CommandView, s: Cells)
    ensures
        same_shape(inverse(c, s), s),
{
    match c {
        CommandView::Draw { prev, .. } => {
            assert forall|p: int| 0 <= p < s.len() implies (#[trigger] inverse(c, s)[p]).len() == s[p].len() by {}
        },
        CommandView::Fill { prev_colors, .. } => {
            lemma_paint_all_shape(s, prev_colors);
        },
        CommandView::Replace { replaced_cells, .. } => {
            lemma_paint_all_shape(s, replaced_cells);
        },
    }
}

/// Undoing a command right after carrying it out restores every cell, for a
/// command that records the cells it is carried out on truly.
pub proof fn lemma_undo_restores(c: CommandView, s: Cells)
    requires
        skin_shape(s),
        fits(c, s),
    ensures
        inverse(executed(c, s), forward(c, s)) == s,
{
    let f = forward(c, s);
    let r = inverse(executed(c, s), f);
    lemma_forward_shape(c, s);
    lemma_inverse_shape(executed(c, s), f);
    assert forall|p: int, i: int| 0 <= p < 12 && 0 <= i < s[p].len() implies #[trigger] r[p][i] == s[p][i] by {
        match c {
            CommandView::Draw { prev, new } => {
                lemma_set_cell_at(s, new, p, i);
                lemma_set_cell_at(f, prev, p, i);
            },
            CommandView::Fill { fill_color, prev_colors, .. } => {
                let painted = recolor(prev_colors, fill_color);
                assert forall|k: int| 0 <= k < painted.len() && hits(#[trigger] painted[k], p, i) implies painted[k].color
                    == fill_color by {}
                lemma_paint_all_at(s, painted, p, i, fill_color);
                assert forall|k: int| 0 <= k < prev_colors.len() && hits(#[trigger] prev_colors[k], p, i) implies prev_colors[k].color
                    == s[p][i] by {
                    assert(recorded(s, prev_colors[k]));
                }
                lemma_paint_all_at(f, prev_colors, p, i, s[p][i]);
                lemma_recolor_hits(prev_colors, fill_color, p, i);
            },
            CommandView::Replace { old_color, new_color, .. } => {
                let found = all_matches(s, old_color, 12);
                lemma_all_matches(s, old_color, 12);
                assert forall|k: int| 0 <= k < found.len() && hits(#[trigger] found[k], p, i) implies found[k].color
                    == old_color by {}
                lemma_paint_all_at(f, found, p, i, old_color);
                if exists|k: int| 0 <= k < found.len() && hits(#[trigger] found[k], p, i) {
                    let k = choose|k: int| 0 <= k < found.len() && hits(#[trigger] found[k], p, i);
                    assert(s[p][i] == old_color);
                }
            },
        }
    }
    assert(r =~~= s);
}

/// The cells after carrying out a list of commands, first to last.
pub open spec fn apply_all(cs: Seq<CommandView>, s: Cells) -> Cells
    decreases cs.len(),
{
    if cs.len() == 0 {
        s
    } else {
        forward(cs.last(), apply_all(cs.drop_last(), s))
    }
}

/// The commands of a list as each is once carried out in turn from `s`.
pub open spec fn executed_all(cs: Seq<CommandView>, s: Cells) -> Seq<CommandView>
    decreases cs.len(),
{
    if cs.len() == 0 {
        Seq::empty()
    } else {
        executed_all(cs.drop_last(), s).push(executed(cs.last(), apply_all(cs.drop_last(), s)))
    }
}

/// The cells after undoing a list of commands, last to first.
pub open spec fn undo_all(cs: Seq<CommandView>, s: Cells) -> Cells
    decreases cs.len(),
{
    if cs.len() == 0 {
        s
    } else {
        undo_all(cs.drop_last(), inverse(cs.last(), s))
    }
}

/// Whether each command of a list records truly the cells it is carried out on.
pub open spec fn fits_all(cs: Seq<CommandView>, s: Cells) -> bool
    decreases cs.len(),
{
    if cs.len() == 0 {
        true
    } else {
        fits_all(cs.drop_last(), s) && fits(cs.last(), apply_all(cs.drop_last(), s))
    }
}

proof fn lemma_apply_all_shape(cs: Seq<CommandView>, s: Cells)
    requires
        skin_shape(s),
    ensures
        skin_shape(apply_all(cs, s)),
        same_shape(apply_all(cs, s), s),
    decreases cs.len(),
{
    if cs.len() > 0 {
        lemma_apply_all_shape(cs.drop_last(), s);
        lemma_forward_shape(cs.last(), apply_all(cs.drop_last(), s));
    }
}

/// Carrying out any list of draws, fills and replaces and then undoing them all, in
/// reverse order, restores every cell to its color before the list. Each command
/// must record truly the cells it is carried out on (a draw or fill is built from
/// the cells as they are; a replace records them as it runs).
pub proof fn lemma_undo_all_restores(cs: Seq<CommandView>, s: Cells)
    requires
        skin_shape(s),
        fits_all(cs, s),
    ensures
        undo_all(executed_all(cs, s), apply_all(cs, s)) == s,
    decreases cs.len(),
{
    if cs.len() > 0 {
        let init = cs.drop_last();
        let mid = apply_all(init, s);
        lemma_apply_all_shape(init, s);
        lemma_undo_restores(cs.last(), mid);
        let ex = executed_all(cs, s);
        assert(ex.drop_last() == executed_all(init, s));
        assert(ex.last() == executed(cs.last(), mid));
        lemma_undo_all_restores(init, s);
    }
}

} // verus!

verus! {

/// A fill started from any cell of a part paints exactly the cells of the face that
/// cell lies on, all of them, and no cell of another face or part; from a cell of
/// the torso's front, that face is cells 0 to 95.
pub proof fn lemma_fill_region(model: ModelType, s: Cells, part: BodyPart, i: int, color: Color)
    requires
        skin_shape(s),
        forall|p: int| 0 <= p < 12 ==> (#[trigger] s[p]).len() == part_cells(model, BodyPart::from_spec_index(p)),
        0 <= i < part_cells(model, part),
    ensures
        ({
            let snap = side_snapshot(s, model, part, i);
            let (a, n) = side_range(model, part, i);
            let f = forward(CommandView::Fill { body_part: part, fill_color: color, prev_colors: snap }, s);
            &&& same_shape(f, s)
            &&& a <= i < a + n
            &&& forall|q: int, j: int|
                0 <= q < 12 && 0 <= j < s[q].len() ==> #[trigger] f[q][j] == if q == part.spec_index() && a <= j < a + n {
                    color
                } else {
                    s[q][j]
                }
            &&& (part == BodyPart::Torso && i < 96 ==> a == 0 && n == 96)
        }),
{
    let snap = side_snapshot(s, model, part, i);
    let (a, n) = side_range(model, part, i);
    let painted = recolor(snap, color);
    let f = forward(CommandView::Fill { body_part: part, fill_color: color, prev_colors: snap }, s);
    lemma_side_starts(model, part);
    lemma_side_rects(model, part);
    assert(a <= i < a + n && a + n <= part_cells(model, part));
    lemma_paint_all_shape(s, painted);
    assert(BodyPart::from_spec_index(part.spec_index() as int) == part);
    assert forall|q: int, j: int| 0 <= q < 12 && 0 <= j < s[q].len() implies #[trigger] f[q][j] == if q == part.spec_index()
        && a <= j < a + n {
        color
    } else {
        s[q][j]
    } by {
        assert forall|k: int| 0 <= k < painted.len() && hits(#[trigger] painted[k], q, j) implies painted[k].color == color by {}
        lemma_paint_all_at(s, painted, q, j, color);
        if q == part.spec_index() && a <= j < a + n {
            assert(hits(painted[j - a], q, j));
        } else {
            assert forall|k: int| 0 <= k < painted.len() implies !hits(#[trigger] painted[k], q, j) by {}
        }
    }
}

proof fn lemma_side_rects(model: ModelType, part: BodyPart)
    ensures
        forall|side: CubeSide| #[trigger] side_cells(model, part, side) >= 1,
{
    assert forall|side: CubeSide| #[trigger] side_cells(model, part, side) >= 1 by {
        lemma_side_rect_bounds(model, part, side);
        let r = side_rect(model, part, side);
        assert(r.2 * r.3 >= 1) by (nonlinear_arith)
            requires
                r.2 >= 1,
                r.3 >= 1,
        ;
    }
}

} // verus!

verus! {

/// Carrying a command out, undoing it and carrying it out again gives the same cells
/// as carrying it out once, for any well-formed command.
pub proof fn lemma_redo_restores(b: CommandView, s: Cells)
    requires
        skin_shape(s),
        b.wf(),
    ensures
        forward(executed(b, s), inverse(executed(b, s), forward(b, s))) == forward(b, s),
{
    let f1 = forward(b, s);
    let bx = executed(b, s);
    let inv = inverse(bx, f1);
    let f2 = forward(bx, inv);
    lemma_forward_shape(b, s);
    lemma_inverse_shape(bx, f1);
    lemma_forward_shape(bx, inv);
    match b {
        CommandView::Replace { .. } => {
            lemma_undo_restores(b, s);
        },
        CommandView::Draw { prev, new } => {
            assert forall|p: int, i: int| 0 <= p < 12 && 0 <= i < s[p].len() implies #[trigger] f2[p][i] == f1[p][i] by {
                lemma_set_cell_at(s, new, p, i);
                lemma_set_cell_at(f1, prev, p, i);
                lemma_set_cell_at(inv, new, p, i);
            }
            assert(f2 =~~= f1);
        },
        CommandView::Fill { fill_color, prev_colors, .. } => {
            let painted = recolor(prev_colors, fill_color);
            assert forall|p: int, i: int| 0 <= p < 12 && 0 <= i < s[p].len() implies #[trigger] f2[p][i] == f1[p][i] by {
                assert forall|k: int| 0 <= k < painted.len() && hits(#[trigger] painted[k], p, i) implies painted[k].color
                    == fill_color by {}
                lemma_paint_all_at(s, painted, p, i, fill_color);
                lemma_paint_all_at(inv, painted, p, i, fill_color);
                lemma_recolor_hits(prev_colors, fill_color, p, i);
                if !(exists|k: int| 0 <= k < prev_colors.len() && hits(#[trigger] prev_colors[k], p, i)) {
                    lemma_paint_all_at(f1, prev_colors, p, i, fill_color);
                }
            }
            assert(f2 =~~= f1);
        },
    }
}

} // verus!
