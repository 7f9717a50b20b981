use skin_editor::atlas::Bitmap;
use skin_editor::tools::{apply_tool, click, handle_fill, handle_pencil, handle_replace, handle_rubber, release};
use skin_editor::{BodyPart, Color, Command, DrawingHistory, Hover, ModelCell, ModelType, Renderer, Tool};
use skin_editor::tools::{drag_action, open_skin, reset_document, DragAction};

fn blank() -> Bitmap {
    Bitmap { width: 64, height: 64, pixels: vec![Color::new(0, 0, 0, 0); 4096] }
}

fn loaded(model: ModelType) -> Renderer {
    let mut r = Renderer::new(model);
    assert!(r.load_texture(&blank(), model, false).is_ok());
    r
}

fn cell(r: &Renderer, part: BodyPart, index: usize) -> ModelCell {
    ModelCell { body_part: part, cell_index: index, color: r.get_pixel(part, index).unwrap() }
}

fn all_cells(r: &Renderer) -> Vec<Vec<Color>> {
    r.model_objects.iter().map(|o| o.get_pixels()).collect()
}

const RED: Color = Color { r: 255, g: 0, b: 0, a: 255 };
const BLUE: Color = Color { r: 0, g: 0, b: 255, a: 255 };
const GREEN: Color = Color { r: 0, g: 255, b: 0, a: 255 };

#[test]
fn paint_undo_redo_export_scenario() {
    let mut r = loaded(ModelType::Classic);
    let mut h = DrawingHistory::new();
    // The torso front cell in row 8, column 4: where a ray through the screen
    // centre meets the torso with the camera at its default orbit.
    let target = cell(&r, BodyPart::Torso, 68);
    assert_eq!(target.color, Color::new(0, 0, 0, 0));
    handle_pencil(&mut h, &mut r, target, RED);
    assert_eq!(r.get_pixel(BodyPart::Torso, 68), Some(RED));
    h.undo(&mut r);
    assert_eq!(r.get_pixel(BodyPart::Torso, 68), Some(Color::new(0, 0, 0, 0)));
    h.redo(&mut r);
    assert_eq!(r.get_pixel(BodyPart::Torso, 68), Some(RED));
    let out = r.export_texture();
    assert_eq!(out.pixels[28 * 64 + 24], Color::new(255, 0, 0, 255));
}

#[test]
fn undo_of_a_sequence_restores_every_cell() {
    let mut r = loaded(ModelType::Slim);
    let start = all_cells(&r);
    let mut done: Vec<Command> = Vec::new();

    let mut c1 = Command::pencil(cell(&r, BodyPart::Head, 3), RED);
    c1.execute(&mut r);
    done.push(c1);
    let mut c2 = Command::pencil(cell(&r, BodyPart::Head, 4), RED);
    c2.execute(&mut r);
    done.push(c2);
    let side = r.get_side_cells(&BodyPart::Head, 10).unwrap();
    let mut c3 = Command::fill(&BodyPart::Head, &BLUE, side);
    c3.execute(&mut r);
    done.push(c3);
    let mut c4 = Command::replace(BLUE, GREEN);
    c4.execute(&mut r);
    done.push(c4);
    let mut c5 = Command::pencil(cell(&r, BodyPart::LeftArm, 0), BLUE);
    c5.execute(&mut r);
    done.push(c5);
    assert_eq!(r.get_pixel(BodyPart::Head, 3), Some(GREEN));
    assert_eq!(r.get_pixel(BodyPart::Head, 64), Some(Color::new(0, 0, 0, 0)));

    for c in done.iter().rev() {
        c.undo(&mut r);
    }
    assert_eq!(all_cells(&r), start);
}

#[test]
fn undo_then_redo_gives_state_after_second_push() {
    let mut r = loaded(ModelType::Classic);
    let mut h = DrawingHistory::new();
    h.add_command(Command::pencil(cell(&r, BodyPart::Torso, 0), RED), &mut r);
    h.add_command(Command::replace(RED, BLUE), &mut r);
    let after_b = all_cells(&r);
    h.undo(&mut r);
    assert_eq!(r.get_pixel(BodyPart::Torso, 0), Some(RED));
    h.redo(&mut r);
    assert_eq!(all_cells(&r), after_b);
    assert!(h.redo_stack.is_empty());
}

#[test]
fn push_after_undo_clears_redo() {
    let mut r = loaded(ModelType::Classic);
    let mut h = DrawingHistory::new();
    h.add_command(Command::pencil(cell(&r, BodyPart::Torso, 0), RED), &mut r);
    h.undo(&mut r);
    assert_eq!(h.redo_stack.len(), 1);
    h.add_command(Command::pencil(cell(&r, BodyPart::Torso, 1), BLUE), &mut r);
    assert!(h.redo_stack.is_empty());
    let before = all_cells(&r);
    h.redo(&mut r);
    assert_eq!(all_cells(&r), before);
    assert_eq!(h.undo_stack.len(), 1);
}

#[test]
fn undo_and_redo_on_empty_stacks_do_nothing() {
    let mut r = loaded(ModelType::Classic);
    let mut h = DrawingHistory::new();
    let before = all_cells(&r);
    h.undo(&mut r);
    h.redo(&mut r);
    assert_eq!(all_cells(&r), before);
    assert!(h.undo_stack.is_empty() && h.redo_stack.is_empty());
}

#[test]
fn pencil_on_same_cell_twice_pushes_once() {
    let mut r = loaded(ModelType::Classic);
    let mut h = DrawingHistory::new();
    let c = cell(&r, BodyPart::Head, 7);
    handle_pencil(&mut h, &mut r, c, RED);
    let again = cell(&r, BodyPart::Head, 7);
    handle_pencil(&mut h, &mut r, again, RED);
    assert_eq!(h.undo_stack.len(), 1);
    let next = cell(&r, BodyPart::Head, 8);
    handle_pencil(&mut h, &mut r, next, RED);
    assert_eq!(h.undo_stack.len(), 2);
}

#[test]
fn rubber_pushes_every_time() {
    let mut r = loaded(ModelType::Classic);
    let mut h = DrawingHistory::new();
    let c = cell(&r, BodyPart::Head, 7);
    handle_rubber(&mut h, &mut r, c);
    handle_rubber(&mut h, &mut r, c);
    assert_eq!(h.undo_stack.len(), 2);
}

#[test]
fn fill_of_torso_front_touches_exactly_that_face() {
    let mut r = loaded(ModelType::Classic);
    let mut h = DrawingHistory::new();
    let before = all_cells(&r);
    let c = cell(&r, BodyPart::Torso, 50);
    handle_fill(&mut h, &mut r, c, BLUE);
    let after = all_cells(&r);
    let mut changed = 0;
    for (p, (a, b)) in after.iter().zip(before.iter()).enumerate() {
        for (i, (x, y)) in a.iter().zip(b.iter()).enumerate() {
            if x != y {
                assert_eq!(p, 1);
                assert!(i < 96);
                changed += 1;
            }
        }
    }
    assert_eq!(changed, 96);
}

#[test]
fn side_cells_follow_the_variant() {
    let classic = loaded(ModelType::Classic);
    let slim = loaded(ModelType::Slim);
    assert_eq!(classic.get_side_cells(&BodyPart::RightArm, 50).unwrap().len(), 48);
    assert_eq!(slim.get_side_cells(&BodyPart::RightArm, 40).unwrap().len(), 48);
    assert_eq!(slim.get_side_cells(&BodyPart::RightArm, 0).unwrap().len(), 36);
    assert_eq!(classic.get_side_cells(&BodyPart::Torso, 100).unwrap()[0].cell_index, 96);
    assert_eq!(classic.get_side_cells(&BodyPart::Torso, 330).unwrap().len(), 32);
    assert!(classic.get_side_cells(&BodyPart::Head, 384).is_none());
    assert!(slim.get_side_cells(&BodyPart::LeftArm, 192).is_none());
}

#[test]
fn replace_turns_every_matching_cell() {
    let mut r = loaded(ModelType::Classic);
    let mut h = DrawingHistory::new();
    let c = cell(&r, BodyPart::Head, 1);
    handle_pencil(&mut h, &mut r, c, RED);
    let c = cell(&r, BodyPart::LeftLeg, 2);
    handle_pencil(&mut h, &mut r, c, RED);
    let c = cell(&r, BodyPart::Head, 1);
    handle_replace(&mut h, &mut r, c, GREEN);
    assert_eq!(r.get_pixel(BodyPart::Head, 1), Some(GREEN));
    assert_eq!(r.get_pixel(BodyPart::LeftLeg, 2), Some(GREEN));
    assert_eq!(h.undo_stack.len(), 3);
    h.undo(&mut r);
    assert_eq!(r.get_pixel(BodyPart::LeftLeg, 2), Some(RED));
    // A transparent picked cell replaces nothing.
    let c = cell(&r, BodyPart::Head, 2);
    handle_replace(&mut h, &mut r, c, GREEN);
    assert_eq!(h.undo_stack.len(), 2);
}

#[test]
fn replace_records_found_cells_in_order() {
    let mut r = loaded(ModelType::Classic);
    r.set_cell(&ModelCell { body_part: BodyPart::Torso, cell_index: 5, color: RED });
    r.set_cell(&ModelCell { body_part: BodyPart::Head, cell_index: 9, color: RED });
    let found = r.replace(RED, BLUE);
    assert_eq!(
        found,
        vec![
            ModelCell { body_part: BodyPart::Head, cell_index: 9, color: RED },
            ModelCell { body_part: BodyPart::Torso, cell_index: 5, color: RED },
        ]
    );
}

#[test]
fn color_picker_returns_only_opaque_colors() {
    let mut r = loaded(ModelType::Classic);
    let mut h = DrawingHistory::new();
    let painted = ModelCell { body_part: BodyPart::Head, cell_index: 0, color: RED };
    assert_eq!(apply_tool(Tool::ColorPicker, &mut h, &mut r, painted, BLUE), Some(RED));
    let clear = ModelCell { body_part: BodyPart::Head, cell_index: 0, color: Color::new(1, 2, 3, 0) };
    assert_eq!(apply_tool(Tool::ColorPicker, &mut h, &mut r, clear, BLUE), None);
    assert!(h.undo_stack.is_empty());
    assert_eq!(Tool::default(), Tool::Pencil);
}

#[test]
fn pointer_over_empty_space_turns_camera() {
    let mut r = loaded(ModelType::Classic);
    let mut h = DrawingHistory::new();
    assert_eq!(click(&mut r, &mut h, None, false, true, Tool::Pencil, RED), None);
    assert!(r.is_motion_on_empty_area());
    assert_eq!(r.get_mouse_hover(), Some(Hover::OnEmptyArea));
    release(&mut r);
    assert!(!r.is_motion_on_empty_area());
    assert_eq!(r.get_mouse_hover(), None);
    let c = cell(&r, BodyPart::Head, 0);
    click(&mut r, &mut h, Some(c), false, true, Tool::Pencil, RED);
    assert_eq!(r.get_mouse_hover(), Some(Hover::OnModel));
    assert_eq!(r.get_pixel(BodyPart::Head, 0), Some(RED));
    let c = cell(&r, BodyPart::Head, 1);
    click(&mut r, &mut h, Some(c), true, false, Tool::Pencil, RED);
    assert_eq!(r.get_pixel(BodyPart::Head, 1), Some(Color::new(0, 0, 0, 0)));
}

#[test]
fn clear_empties_both_stacks() {
    let mut r = loaded(ModelType::Classic);
    let mut h = DrawingHistory::new();
    h.add_command(Command::pencil(cell(&r, BodyPart::Torso, 0), RED), &mut r);
    h.add_command(Command::pencil(cell(&r, BodyPart::Torso, 1), RED), &mut r);
    h.undo(&mut r);
    h.clear();
    assert!(h.undo_stack.is_empty() && h.redo_stack.is_empty());
    assert_eq!(r.get_pixel(BodyPart::Torso, 0), Some(RED));
}

#[test]
fn drag_follows_what_the_press_hit() {
    let mut r = loaded(ModelType::Classic);
    assert_eq!(drag_action(&r), DragAction::Ignore);
    r.set_mouse_hover(Some(Hover::OnModel));
    assert_eq!(drag_action(&r), DragAction::Paint);
    r.set_mouse_hover(Some(Hover::OnEmptyArea));
    assert_eq!(drag_action(&r), DragAction::TurnCamera);
}

#[test]
fn reset_document_clears_cells_and_history() {
    let mut r = loaded(ModelType::Classic);
    let mut h = DrawingHistory::new();
    let c = cell(&r, BodyPart::Head, 0);
    handle_pencil(&mut h, &mut r, c, RED);
    reset_document(&mut h, &mut r);
    assert_eq!(r.get_pixel(BodyPart::Head, 0), Some(Color::new(0, 0, 0, 0)));
    assert!(h.undo_stack.is_empty());
}

#[test]
fn open_skin_failure_keeps_history() {
    let mut r = loaded(ModelType::Classic);
    let mut h = DrawingHistory::new();
    let c = cell(&r, BodyPart::Head, 0);
    handle_pencil(&mut h, &mut r, c, RED);
    assert!(open_skin(&mut h, &mut r, &[1, 2, 3], ModelType::Slim).is_err());
    assert_eq!(h.undo_stack.len(), 1);
    assert_eq!(r.get_model_type(), ModelType::Classic);
}
