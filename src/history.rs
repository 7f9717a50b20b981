use vstd::prelude::*;

use crate::cell::{Cells, ModelCell, skin_shape};
use crate::command::{Command, CommandView, executed, forward, inverse};
use crate::renderer::Renderer;

verus! {

/// The views of a list of commands.
pub open spec fn views(v: Seq<Command>) -> Seq<CommandView> {
    Seq::new(v.len(), |i: int| v[i]@)
}

/// Whether every command of a list is well formed.
pub open spec fn all_wf(v: Seq<CommandView>) -> bool {
    forall|i: int| 0 <= i < v.len() ==> (#[trigger] v[i]).wf()
}

/// Undo and redo stacks of edits, and the cell last painted by a drag.
pub struct DrawingHistory {
    pub undo_stack: Vec<Command>,
    pub redo_stack: Vec<Command>,
    pub last_modified_cell: Option<ModelCell>,
}

/// The cells and both stacks, as values.
pub struct HistoryState {
    pub cells: Cells,
    pub undo: Seq<CommandView>,
    pub redo: Seq<CommandView>,
}

/// Pushing an edit carries it out, stacks it for undo, and forgets what could be redone.
pub open spec fn push_spec(st: HistoryState, c: CommandView) -> HistoryState {
    HistoryState { cells: forward(c, st.cells), undo: st.undo.push(executed(c, st.cells)), redo: Seq::empty() }
}

/// Undo takes back the last edit and stacks it for redo; with nothing to undo it does
/// nothing.
pub open spec fn undo_spec(st: HistoryState) -> HistoryState {
    if st.undo.len() == 0 {
        st
    } else {
        HistoryState {
            cells: inverse(st.undo.last(), st.cells),
            undo: st.undo.drop_last(),
            redo: st.redo.push(st.undo.last()),
        }
    }
}

/// Redo carries the last undone edit out again and stacks it for undo; with nothing to
/// redo it does nothing.
pub open spec fn redo_spec(st: HistoryState) -> HistoryState {
    if st.redo.len() == 0 {
        st
    } else {
        HistoryState {
            cells: forward(st.redo.last(), st.cells),
            undo: st.undo.push(executed(st.redo.last(), st.cells)),
            redo: st.redo.drop_last(),
        }
    }
}

impl DrawingHistory {
    /// Every stacked command is well formed.
    pub open spec fn wf(&self) -> bool {
        all_wf(views(self.undo_stack@)) && all_wf(views(self.redo_stack@))
    }

    pub open spec fn state(&self, renderer: &Renderer) -> HistoryState {
        HistoryState { cells: renderer.cells(), undo: views(self.undo_stack@), redo: views(self.redo_stack@) }
    }

    /// Empty stacks, no cell painted yet.
    pub fn new() -> (r: DrawingHistory)
        ensures
            r.wf(),
            r.undo_stack@.len() == 0,
            r.redo_stack@.len() == 0,
            r.last_modified_cell.is_none(),
    {
        DrawingHistory { undo_stack: Vec::new(), redo_stack: Vec::new(), last_modified_cell: None }
    }

    /// Carries an edit out and stacks it for undo; nothing is left to redo.
    pub fn add_command(&mut self, command: Command, renderer: &mut Renderer) -> (r: bool)
        requires
            old(self).wf(),
            command@.wf(),
            old(renderer).wf(),
        ensures
            r,
            final(self).wf(),
            final(renderer).wf(),
            final(self).state(final(renderer)) == push_spec(old(self).state(old(renderer)), command@),
            final(self).last_modified_cell == old(self).last_modified_cell,
            final(renderer).model_type == old(renderer).model_type,
            final(renderer).visible_objects == old(renderer).visible_objects,
        final(renderer).mouse_hover == old(renderer).mouse_hover,
        final(renderer).mouse_motion == old(renderer).mouse_motion,
        final(renderer).grid == old(renderer).grid,
    {
        let mut command = command;
        command.execute(renderer);
        self.undo_stack.push(command);
        self.redo_stack.clear();
        assert(views(self.undo_stack@) =~= views(old(self).undo_stack@).push(command@));
        assert(views(self.redo_stack@) =~= Seq::<CommandView>::empty());
        true
    }

    /// Takes back the last edit, if any, and stacks it for redo.
    pub fn undo(&mut self, renderer: &mut Renderer)
        requires
            old(self).wf(),
            old(renderer).wf(),
        ensures
            final(self).wf(),
            final(renderer).wf(),
            final(self).state(final(renderer)) == undo_spec(old(self).state(old(renderer))),
            old(self).undo_stack@.len() > 0 ==> final(self).last_modified_cell.is_none(),
            old(self).undo_stack@.len() == 0 ==> final(self).last_modified_cell == old(self).last_modified_cell,
            final(renderer).model_type == old(renderer).model_type,
            final(renderer).visible_objects == old(renderer).visible_objects,
        final(renderer).mouse_hover == old(renderer).mouse_hover,
        final(renderer).mouse_motion == old(renderer).mouse_motion,
        final(renderer).grid == old(renderer).grid,
    {
        if self.undo_stack.len() == 0 {
            return;
        }
        let command = self.undo_stack.pop().unwrap();
        command.undo(renderer);
        self.redo_stack.push(command);
        self.last_modified_cell = None;
        assert(views(self.undo_stack@) =~= views(old(self).undo_stack@).drop_last());
        assert(views(self.redo_stack@) =~= views(old(self).redo_stack@).push(command@));
        proof {
            let u = views(old(self).undo_stack@);
            assert(command@ == u[u.len() - 1]);
            assert(command@.wf());
            assert forall|i: int| 0 <= i < views(self.undo_stack@).len() implies (#[trigger] views(self.undo_stack@)[i]).wf() by {
                assert(views(self.undo_stack@)[i] == u[i]);
            }
            assert forall|i: int| 0 <= i < views(self.redo_stack@).len() implies (#[trigger] views(self.redo_stack@)[i]).wf() by {
                if i < views(old(self).redo_stack@).len() {
                    assert(views(self.redo_stack@)[i] == views(old(self).redo_stack@)[i]);
                }
            }
        }
    }

    /// Carries the last undone edit out again, if any, and stacks it for undo.
    pub fn redo(&mut self, renderer: &mut Renderer)
        requires
            old(self).wf(),
            old(renderer).wf(),
        ensures
            final(self).wf(),
            final(renderer).wf(),
            final(self).state(final(renderer)) == redo_spec(old(self).state(old(renderer))),
            old(self).redo_stack@.len() > 0 ==> final(self).last_modified_cell.is_none(),
            old(self).redo_stack@.len() == 0 ==> final(self).last_modified_cell == old(self).last_modified_cell,
            final(renderer).model_type == old(renderer).model_type,
            final(renderer).visible_objects == old(renderer).visible_objects,
        final(renderer).mouse_hover == old(renderer).mouse_hover,
        final(renderer).mouse_motion == old(renderer).mouse_motion,
        final(renderer).grid == old(renderer).grid,
    {
        if self.redo_stack.len() == 0 {
            return;
        }
        let mut command = self.redo_stack.pop().unwrap();
        command.redo(renderer);
        self.undo_stack.push(command);
        self.last_modified_cell = None;
        assert(views(self.redo_stack@) =~= views(old(self).redo_stack@).drop_last());
        assert(views(self.undo_stack@) =~= views(old(self).undo_stack@).push(command@));
        proof {
            let r = views(old(self).redo_stack@);
            assert(r[r.len() - 1].wf());
            assert(command@.wf());
            assert forall|i: int| 0 <= i < views(self.redo_stack@).len() implies (#[trigger] views(self.redo_stack@)[i]).wf() by {
                assert(views(self.redo_stack@)[i] == r[i]);
            }
            assert forall|i: int| 0 <= i < views(self.undo_stack@).len() implies (#[trigger] views(self.undo_stack@)[i]).wf() by {
                if i < views(old(self).undo_stack@).len() {
                    assert(views(self.undo_stack@)[i] == views(old(self).undo_stack@)[i]);
                }
            }
        }
    }

    /// The cell last painted by a drag, if any.
    pub fn get_last_modified(&self) -> (r: Option<ModelCell>)
        ensures
            r == self.last_modified_cell,
    {
        self.last_modified_cell
    }

    /// Records the cell last painted by a drag.
    pub fn set_last_modified(&mut self, cell: ModelCell)
        ensures
            final(self).wf() == old(self).wf(),
            final(self).last_modified_cell == Some(cell),
            final(self).undo_stack == old(self).undo_stack,
            final(self).redo_stack == old(self).redo_stack,
    {
        self.last_modified_cell = Some(cell);
    }

    /// Empties both stacks without touching any cell.
    pub fn clear(&mut self)
        ensures
            final(self).wf(),
            final(self).undo_stack@.len() == 0,
            final(self).redo_stack@.len() == 0,
            final(self).last_modified_cell == old(self).last_modified_cell,
    {
        self.undo_stack.clear();
        self.redo_stack.clear();
    }
}

/// Redo after undo: after pushing `a` then `b`, undoing and redoing leaves the cells
/// as they were right after pushing `b`, as many edits to undo, and nothing left to
/// redo, for any well-formed `b` (every command that `add_command` accepts).
pub proof fn lemma_undo_then_redo(st: HistoryState, a: CommandView, b: CommandView)
    requires
        skin_shape(st.cells),
        b.wf(),
    ensures
        redo_spec(undo_spec(push_spec(push_spec(st, a), b))).cells == push_spec(push_spec(st, a), b).cells,
        redo_spec(undo_spec(push_spec(push_spec(st, a), b))).undo.len() == push_spec(push_spec(st, a), b).undo.len(),
        redo_spec(undo_spec(push_spec(push_spec(st, a), b))).redo.len() == 0,
{
    let s1 = push_spec(st, a);
    let s2 = push_spec(s1, b);
    let s3 = undo_spec(s2);
    let bx = executed(b, s1.cells);
    assert(s2.undo.last() == bx);
    crate::command::lemma_forward_shape(a, st.cells);
    let c1 = s1.cells;
    assert(skin_shape(c1)) by {
        assert forall|p: int| 0 <= p < 12 implies (#[trigger] c1[p]).len() <= usize::MAX by {
            assert(c1[p].len() == st.cells[p].len());
        }
    }
    crate::command::lemma_redo_restores(b, c1);
}

/// A push clears the redo stack: after pushing `a`, undoing, and pushing `c`, redo
/// does nothing.
pub proof fn lemma_push_clears_redo(st: HistoryState, a: CommandView, c: CommandView)
    ensures
        redo_spec(push_spec(undo_spec(push_spec(st, a)), c)) == push_spec(undo_spec(push_spec(st, a)), c),
{
}

} // verus!

verus! {

/// The state after pushing a list of edits, first to last.
pub open spec fn push_all(st: HistoryState, cs: Seq<CommandView>) -> HistoryState
    decreases cs.len(),
{
    if cs.len() == 0 {
        st
    } else {
        push_spec(push_all(st, cs.drop_last()), cs.last())
    }
}

/// The state after `n` undos.
pub open spec fn undo_n(st: HistoryState, n: nat) -> HistoryState
    decreases n,
{
    if n == 0 {
        st
    } else {
        undo_n(undo_spec(st), (n - 1) as nat)
    }
}

proof fn lemma_push_all(st: HistoryState, cs: Seq<CommandView>)
    ensures
        push_all(st, cs).cells == crate::command::apply_all(cs, st.cells),
        push_all(st, cs).undo == st.undo + crate::command::executed_all(cs, st.cells),
        crate::command::executed_all(cs, st.cells).len() == cs.len(),
    decreases cs.len(),
{
    if cs.len() > 0 {
        lemma_push_all(st, cs.drop_last());
        let e = crate::command::executed_all(cs.drop_last(), st.cells);
        assert(st.undo + e.push(executed(cs.last(), crate::command::apply_all(cs.drop_last(), st.cells)))
            =~= (st.undo + e).push(executed(cs.last(), crate::command::apply_all(cs.drop_last(), st.cells))));
    }
}

proof fn lemma_undo_n(st: HistoryState, u: Seq<CommandView>, e: Seq<CommandView>)
    requires
        st.undo == u + e,
    ensures
        undo_n(st, e.len()).cells == crate::command::undo_all(e, st.cells),
        undo_n(st, e.len()).undo == u,
    decreases e.len(),
{
    if e.len() == 0 {
        assert(u + e =~= u);
    } else {
        assert((u + e).last() == e.last());
        assert((u + e).drop_last() =~= u + e.drop_last());
        lemma_undo_n(undo_spec(st), u, e.drop_last());
    }
}

/// Pushing any list of draws, fills and replaces and then undoing as many times
/// restores every cell to its color before the list, and the undo stack to what it
/// was. Each draw or fill must be built from the cells as they are when it is pushed
/// (a replace records them itself as it runs).
pub proof fn lemma_undo_after_pushes(st: HistoryState, cs: Seq<CommandView>)
    requires
        skin_shape(st.cells),
        crate::command::fits_all(cs, st.cells),
    ensures
        undo_n(push_all(st, cs), cs.len()).cells == st.cells,
        undo_n(push_all(st, cs), cs.len()).undo == st.undo,
{
    lemma_push_all(st, cs);
    let e = crate::command::executed_all(cs, st.cells);
    lemma_undo_n(push_all(st, cs), st.undo, e);
    crate::command::lemma_undo_all_restores(cs, st.cells);
}

} // verus!
