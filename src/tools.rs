use vstd::prelude::*;

use crate::cell::{ModelCell, same_shape};
use crate::color::{Color, transparent};
use crate::command::{Command, CommandView};
use crate::history::{DrawingHistory, HistoryState, push_spec};
use crate::renderer::{Hover, Renderer, side_snapshot};
use crate::atlas::part_cells;
use crate::taxonomy::ModelType;

verus! {

/// The editing tools.
#[derive(Copy, Clone, PartialEq, Eq, Structural, Debug)]
pub enum Tool {
    Pencil,
    Rubber,
    ColorPicker,
    Fill,
    Random,
    Replace,
}

impl Default for Tool {
    fn default() -> (r: Tool)
        ensures
            r == Tool::Pencil,
    {
        Tool::Pencil
    }
}

/// The draw of one picked cell in a color.
pub open spec fn draw_of(cell: ModelCell, color: Color) -> CommandView {
    CommandView::Draw { prev: cell, new: ModelCell { color, ..cell } }
}

/// What a pencil stroke on a cell does: a draw, unless the stroke is still on the
/// cell it painted last, which would paint it again.
pub open spec fn pencil_spec(st: HistoryState, last: Option<ModelCell>, cell: ModelCell, color: Color) -> (HistoryState, Option<ModelCell>) {
    if last matches Some(l) && l.spec_same_cell(cell) {
        (st, last)
    } else {
        (push_spec(st, draw_of(cell, color)), Some(cell))
    }
}

/// What a fill from a picked cell does: a fill of the face the cell lies on, built
/// from that face's cells as they are; nothing for a cell the part does not have.
pub open spec fn fill_spec(st: HistoryState, model: ModelType, cell: ModelCell, color: Color) -> HistoryState {
    if cell.cell_index < part_cells(model, cell.body_part) {
        push_spec(
            st,
            CommandView::Fill {
                body_part: cell.body_part,
                fill_color: color,
                prev_colors: side_snapshot(st.cells, model, cell.body_part, cell.cell_index as int),
            },
        )
    } else {
        st
    }
}

/// What a replace from a picked cell does: every cell of its color turned to the
/// new one; nothing for a fully transparent cell.
pub open spec fn replace_spec(st: HistoryState, cell: ModelCell, color: Color) -> HistoryState {
    if cell.color.a != 0 {
        push_spec(st, CommandView::Replace { old_color: cell.color, new_color: color, replaced_cells: Seq::empty() })
    } else {
        st
    }
}

/// What applying a tool to a picked cell does to the cells, the stacks and the
/// cell last painted by a drag.
pub open spec fn tool_spec(
    tool: Tool,
    st: HistoryState,
    last: Option<ModelCell>,
    model: ModelType,
    cell: ModelCell,
    color: Color,
) -> (HistoryState, Option<ModelCell>) {
    match tool {
        Tool::Pencil | Tool::Random => pencil_spec(st, last, cell, color),
        Tool::Rubber => (push_spec(st, draw_of(cell, transparent())), last),
        Tool::Fill => (fill_spec(st, model, cell, color), last),
        Tool::Replace => (replace_spec(st, cell, color), last),
        Tool::ColorPicker => (st, last),
    }
}

/// Paints a picked cell with the foreground color, unless the drag is still on the
/// cell it painted last.
pub fn handle_pencil(history: &mut DrawingHistory, renderer: &mut Renderer, cell: ModelCell, color: Color)
    requires
        old(history).wf(),
        old(renderer).wf(),
    ensures
        final(renderer).wf(),
        final(history).wf(),
        (final(history).state(final(renderer)), final(history).last_modified_cell) == pencil_spec(
            old(history).state(old(renderer)),
            old(history).last_modified_cell,
            cell,
            color,
        ),
        final(renderer).model_type == old(renderer).model_type,
        final(renderer).visible_objects == old(renderer).visible_objects,
        final(renderer).mouse_hover == old(renderer).mouse_hover,
        final(renderer).mouse_motion == old(renderer).mouse_motion,
        final(renderer).grid == old(renderer).grid,
{
    let trying_draw_same_cell = match history.get_last_modified() {
        Some(last) => last.same_cell(cell),
        None => false,
    };
    if !trying_draw_same_cell {
        history.add_command(Command::pencil(cell, color), renderer);
        history.set_last_modified(cell);
    }
}

/// Paints a picked cell with a color that the caller has drawn at random around the
/// foreground color, unless the drag is still on the cell it painted last.
pub fn handle_random(history: &mut DrawingHistory, renderer: &mut Renderer, cell: ModelCell, color: Color)
    requires
        old(history).wf(),
        old(renderer).wf(),
    ensures
        final(renderer).wf(),
        final(history).wf(),
        (final(history).state(final(renderer)), final(history).last_modified_cell) == pencil_spec(
            old(history).state(old(renderer)),
            old(history).last_modified_cell,
            cell,
            color,
        ),
        final(renderer).model_type == old(renderer).model_type,
        final(renderer).visible_objects == old(renderer).visible_objects,
        final(renderer).mouse_hover == old(renderer).mouse_hover,
        final(renderer).mouse_motion == old(renderer).mouse_motion,
        final(renderer).grid == old(renderer).grid,
{
    handle_pencil(history, renderer, cell, color);
}

/// Erases a picked cell: a draw of full transparency, every time.
pub fn handle_rubber(history: &mut DrawingHistory, renderer: &mut Renderer, cell: ModelCell)
    requires
        old(history).wf(),
        old(renderer).wf(),
    ensures
        final(renderer).wf(),
        final(history).wf(),
        final(history).state(final(renderer)) == push_spec(old(history).state(old(renderer)), draw_of(cell, transparent())),
        final(history).last_modified_cell == old(history).last_modified_cell,
        final(renderer).model_type == old(renderer).model_type,
        final(renderer).visible_objects == old(renderer).visible_objects,
        final(renderer).mouse_hover == old(renderer).mouse_hover,
        final(renderer).mouse_motion == old(renderer).mouse_motion,
        final(renderer).grid == old(renderer).grid,
{
    history.add_command(Command::pencil(cell, Color::transparent()), renderer);
}

/// Fills the face of the picked cell's part that the cell lies on. A cell the part
/// does not have changes nothing.
pub fn handle_fill(history: &mut DrawingHistory, renderer: &mut Renderer, cell: ModelCell, color: Color)
    requires
        old(history).wf(),
        old(renderer).wf(),
    ensures
        final(renderer).wf(),
        final(history).wf(),
        final(history).state(final(renderer)) == fill_spec(old(history).state(old(renderer)), old(renderer).model_type, cell, color),
        final(history).last_modified_cell == old(history).last_modified_cell,
        final(renderer).model_type == old(renderer).model_type,
        final(renderer).visible_objects == old(renderer).visible_objects,
        final(renderer).mouse_hover == old(renderer).mouse_hover,
        final(renderer).mouse_motion == old(renderer).mouse_motion,
        final(renderer).grid == old(renderer).grid,
{
    match renderer.get_side_cells(&cell.body_part, cell.cell_index) {
        Some(cells_to_fill) => {
            history.add_command(Command::fill(&cell.body_part, &color, cells_to_fill), renderer);
        },
        None => {},
    }
}

/// Turns every cell of the picked cell's color into the foreground color. A fully
/// transparent picked cell changes nothing.
pub fn handle_replace(history: &mut DrawingHistory, renderer: &mut Renderer, cell: ModelCell, color: Color)
    requires
        old(history).wf(),
        old(renderer).wf(),
    ensures
        final(renderer).wf(),
        final(history).wf(),
        final(history).state(final(renderer)) == replace_spec(old(history).state(old(renderer)), cell, color),
        final(history).last_modified_cell == old(history).last_modified_cell,
        final(renderer).model_type == old(renderer).model_type,
        final(renderer).visible_objects == old(renderer).visible_objects,
        final(renderer).mouse_hover == old(renderer).mouse_hover,
        final(renderer).mouse_motion == old(renderer).mouse_motion,
        final(renderer).grid == old(renderer).grid,
{
    if !cell.color.is_colored() {
        return;
    }
    history.add_command(Command::replace(cell.color, color), renderer);
}

/// Applies a tool to a picked cell with the foreground color (for the random tool,
/// the color already drawn at random). Returns the color that the color picker
/// picks: that of the cell, when it has any opacity; the other tools return `None`.
pub fn apply_tool(
    tool: Tool,
    history: &mut DrawingHistory,
    renderer: &mut Renderer,
    cell: ModelCell,
    color: Color,
) -> (r: Option<Color>)
    requires
        old(history).wf(),
        old(renderer).wf(),
    ensures
        final(renderer).wf(),
        final(history).wf(),
        r == if tool == Tool::ColorPicker && cell.color.a != 0 {
            Some(cell.color)
        } else {
            None
        },
        (final(history).state(final(renderer)), final(history).last_modified_cell) == tool_spec(
            tool,
            old(history).state(old(renderer)),
            old(history).last_modified_cell,
            old(renderer).model_type,
            cell,
            color,
        ),
        final(renderer).model_type == old(renderer).model_type,
        final(renderer).visible_objects == old(renderer).visible_objects,
        final(renderer).mouse_hover == old(renderer).mouse_hover,
        final(renderer).mouse_motion == old(renderer).mouse_motion,
        final(renderer).grid == old(renderer).grid,
{
    match tool {
        Tool::Pencil => {
            handle_pencil(history, renderer, cell, color);
            None
        },
        Tool::Rubber => {
            handle_rubber(history, renderer, cell);
            None
        },
        Tool::Fill => {
            handle_fill(history, renderer, cell, color);
            None
        },
        Tool::Random => {
            handle_random(history, renderer, cell, color);
            None
        },
        Tool::Replace => {
            handle_replace(history, renderer, cell, color);
            None
        },
        Tool::ColorPicker => {
            if cell.color.is_colored() {
                Some(cell.color)
            } else {
                None
            }
        },
    }
}

/// The pointer went down (`updating` false) or moved while down (`updating` true)
/// with `hit` the cell under it. Over empty space it starts turning the camera; over
/// the model it applies the tool, when one is active. Returns the color picked, if
/// any.
pub fn click(
    renderer: &mut Renderer,
    history: &mut DrawingHistory,
    hit: Option<ModelCell>,
    updating: bool,
    tool_active: bool,
    tool: Tool,
    color: Color,
) -> (r: Option<Color>)
    requires
        old(history).wf(),
        old(renderer).wf(),
    ensures
        final(renderer).wf(),
        final(history).wf(),
        hit.is_none() ==> final(renderer).mouse_motion && r.is_none() && final(history).state(final(renderer))
            == old(history).state(old(renderer)) && final(renderer).mouse_hover == if updating {
            old(renderer).mouse_hover
        } else {
            Some(Hover::OnEmptyArea)
        },
        hit.is_some() && !updating ==> final(renderer).mouse_hover == Some(Hover::OnModel),
        hit.is_some() && updating ==> final(renderer).mouse_hover == old(renderer).mouse_hover,
        hit.is_some() ==> final(renderer).mouse_motion == old(renderer).mouse_motion,
        final(renderer).model_type == old(renderer).model_type,
        final(renderer).visible_objects == old(renderer).visible_objects,
        final(renderer).grid == old(renderer).grid,
        hit.is_some() && !tool_active ==> r.is_none() && final(history).state(final(renderer)) == old(history).state(old(renderer)),
        hit.is_some() && tool_active ==> (final(history).state(final(renderer)), final(history).last_modified_cell)
            == tool_spec(
            tool,
            old(history).state(old(renderer)),
            old(history).last_modified_cell,
            old(renderer).model_type,
            hit.unwrap(),
            color,
        ),
        hit.is_some() && tool_active ==> r == if tool == Tool::ColorPicker && hit.unwrap().color.a != 0 {
            Some(hit.unwrap().color)
        } else {
            None
        },
{
    match hit {
        None => {
            if !updating {
                renderer.set_mouse_hover(Some(Hover::OnEmptyArea));
            }
            renderer.start_motion();
            None
        },
        Some(cell) => {
            if !updating {
                renderer.set_mouse_hover(Some(Hover::OnModel));
            }
            if !tool_active {
                return None;
            }
            let r = apply_tool(tool, history, renderer, cell, color);
            r
        },
    }
}

/// The pointer was released: no drag goes on.
pub fn release(renderer: &mut Renderer)
    ensures
        *final(renderer) == (Renderer { mouse_motion: false, mouse_hover: None, ..*old(renderer) }),
{
    renderer.stop_motion();
    renderer.set_mouse_hover(None);
}

/// Two pencil strokes in a row on the same cell with the same color push one draw,
/// not two: the second changes nothing, and the first pushes at most one.
pub proof fn lemma_pencil_same_cell(st: HistoryState, last: Option<ModelCell>, c1: ModelCell, c2: ModelCell, color: Color)
    requires
        c1.spec_same_cell(c2),
    ensures
        ({
            let (st1, last1) = pencil_spec(st, last, c1, color);
            let (st2, last2) = pencil_spec(st1, last1, c2, color);
            &&& st2 == st1
            &&& last2 == last1
            &&& st1.undo.len() <= st.undo.len() + 1
            &&& (!(last matches Some(l) && l.spec_same_cell(c1)) ==> st1.undo.len() == st.undo.len() + 1)
        }),
{
}

} // verus!

verus! {

/// What a pointer move with a button held does.
#[derive(Copy, Clone, PartialEq, Eq, Structural, Debug)]
pub enum DragAction {
    /// Apply the tool again at the new position.
    Paint,
    /// Turn the camera by the pointer's movement.
    TurnCamera,
    /// Nothing: no press was recorded.
    Ignore,
}

/// The action for a pointer move, from what the pointer went down on.
pub fn drag_action(renderer: &Renderer) -> (r: DragAction)
    ensures
        r == match renderer.mouse_hover {
            Some(Hover::OnModel) => DragAction::Paint,
            Some(Hover::OnEmptyArea) => DragAction::TurnCamera,
            None => DragAction::Ignore,
        },
{
    match renderer.get_mouse_hover() {
        Some(Hover::OnModel) => DragAction::Paint,
        Some(Hover::OnEmptyArea) => DragAction::TurnCamera,
        None => DragAction::Ignore,
    }
}

/// Opens a skin from the bytes of an image file in the given arm variant. On
/// success the edit history starts afresh; on failure nothing changes.
pub fn open_skin(
    history: &mut DrawingHistory,
    renderer: &mut Renderer,
    bytes: &[u8],
    model_type: ModelType,
) -> (r: Result<(), crate::atlas::TextureLoadError>)
    requires
        old(history).wf(),
        old(renderer).wf(),
    ensures
        final(renderer).wf(),
        final(history).wf(),
        r is Err ==> *final(renderer) == *old(renderer) && final(history).undo_stack@ == old(history).undo_stack@
            && final(history).redo_stack@ == old(history).redo_stack@,
        r is Ok ==> final(renderer).model_type == model_type && final(history).undo_stack@.len() == 0
            && final(history).redo_stack@.len() == 0,
        (r matches Err(crate::atlas::TextureLoadError::Image(_))) <==> crate::codec::decoded_rgba(bytes@) is None,
        crate::codec::decoded_rgba(bytes@) matches Some((w, h, data)) ==> ({
            &&& r.is_ok() == (w == 64 && h == 64)
            &&& r is Ok ==> final(renderer).cells() == crate::renderer::loaded_cells(
                model_type,
                crate::codec::rgba_pixels(data),
                false,
            )
        }),
{
    let r = renderer.load_texture_from_bytes(bytes, model_type, false);
    if r.is_ok() {
        history.clear();
    }
    r
}

/// Starts a new, blank document: every cell cleared and no history.
pub fn reset_document(history: &mut DrawingHistory, renderer: &mut Renderer)
    requires
        old(history).wf(),
        old(renderer).wf(),
    ensures
        final(renderer).wf(),
        final(history).wf(),
        same_shape(final(renderer).cells(), old(renderer).cells()),
        forall|p: int, i: int|
            0 <= p < 12 && 0 <= i < final(renderer).cells()[p].len() ==> #[trigger] final(renderer).cells()[p][i]
                == transparent(),
        final(history).undo_stack@.len() == 0,
        final(history).redo_stack@.len() == 0,
        final(renderer).model_type == old(renderer).model_type,
        final(renderer).visible_objects == old(renderer).visible_objects,
        final(renderer).grid == old(renderer).grid,
        final(renderer).mouse_hover == old(renderer).mouse_hover,
        final(renderer).mouse_motion == old(renderer).mouse_motion,
{
    renderer.reset_skin();
    history.clear();
}

} // verus!
