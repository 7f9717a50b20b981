use skin_editor::atlas::Bitmap;
use skin_editor::remap::{classic_to_slim_arm, slim_to_classic_arm};
use skin_editor::renderer::part_vertices;
use skin_editor::{guess_model_type, BodyPart, Color, ModelCell, ModelObject, ModelType, Renderer, SkinDialogResponse};
use skin_editor::PartToggles;

fn arm(model: ModelType, part: BodyPart) -> ModelObject {
    ModelObject::new(&part_vertices(model, part))
}

fn numbered(obj: &mut ModelObject, n: usize) {
    for i in 0..n {
        obj.paint(i, Color::new(i as u8, (i / 256) as u8, 7, 255));
    }
}

#[test]
fn classic_to_slim_drops_outer_column() {
    let mut classic = arm(ModelType::Classic, BodyPart::LeftArm);
    numbered(&mut classic, 224);
    let mut slim = arm(ModelType::Slim, BodyPart::LeftArm);
    classic_to_slim_arm(&classic, &mut slim, BodyPart::LeftArm);
    let c = classic.get_pixels();
    let s = slim.get_pixels();
    // Left arm front: columns 0..3 kept, column 3 dropped.
    assert_eq!(s[0], c[0]);
    assert_eq!(s[2], c[2]);
    assert_eq!(s[3], c[4]);
    // Side faces keep all four columns.
    assert_eq!(s[36], c[48]);
    assert_eq!(s[39], c[51]);
    // Back of a left arm drops column 0.
    assert_eq!(s[84], c[97]);

    let mut right = arm(ModelType::Classic, BodyPart::RightArm);
    numbered(&mut right, 224);
    let mut right_slim = arm(ModelType::Slim, BodyPart::RightArm);
    classic_to_slim_arm(&right, &mut right_slim, BodyPart::RightArm);
    let rc = right.get_pixels();
    let rs = right_slim.get_pixels();
    assert_eq!(rs[0], rc[1]);
    assert_eq!(rs[84], rc[96]);
    assert_eq!(rs[168], rc[193]);
    assert_eq!(rs[191], rc[223]);
}

#[test]
fn classic_slim_classic_keeps_surviving_columns() {
    for part in [BodyPart::LeftArm, BodyPart::RightArmOuter] {
        let mut classic = arm(ModelType::Classic, part);
        numbered(&mut classic, 224);
        let mut slim = arm(ModelType::Slim, part);
        classic_to_slim_arm(&classic, &mut slim, part);
        let mut back = arm(ModelType::Classic, part);
        slim_to_classic_arm(&slim, &mut back, part);
        let a = classic.get_pixels();
        let b = back.get_pixels();
        let fresh = Color::new(255, 255, 255, 0);
        let mut kept = 0;
        for i in 0..224 {
            if b[i] != fresh {
                assert_eq!(b[i], a[i]);
                kept += 1;
            }
        }
        assert_eq!(kept, 192);
    }
}

#[test]
fn switching_variant_and_back_through_renderer() {
    let mut r = Renderer::new(ModelType::Classic);
    let blank = Bitmap { width: 64, height: 64, pixels: vec![Color::new(0, 0, 0, 0); 4096] };
    assert!(r.load_texture(&blank, ModelType::Classic, false).is_ok());
    let red = Color::new(255, 0, 0, 255);
    r.set_cell(&ModelCell { body_part: BodyPart::LeftArm, cell_index: 1, color: red });
    r.set_cell(&ModelCell { body_part: BodyPart::LeftArm, cell_index: 3, color: red });
    r.set_cell(&ModelCell { body_part: BodyPart::Head, cell_index: 3, color: red });
    r.reset_model_type(ModelType::Slim);
    assert_eq!(r.get_model_type(), ModelType::Slim);
    assert_eq!(r.model_objects[3].get_pixels().len(), 192);
    r.reset_model_type(ModelType::Classic);
    assert_eq!(r.get_pixel(BodyPart::LeftArm, 1), Some(red));
    assert_eq!(r.get_pixel(BodyPart::LeftArm, 3), Some(Color::new(255, 255, 255, 0)));
    assert_eq!(r.get_pixel(BodyPart::Head, 3), Some(red));
}

#[test]
fn reset_skin_clears_every_cell() {
    let mut r = Renderer::new(ModelType::Slim);
    r.set_cell(&ModelCell { body_part: BodyPart::Torso, cell_index: 4, color: Color::new(1, 1, 1, 1) });
    r.reset_skin();
    assert!(r.model_objects.iter().all(|o| o.get_pixels().iter().all(|c| *c == Color::new(0, 0, 0, 0))));
}

#[test]
fn visibility_and_grid_toggles() {
    let mut r = Renderer::new(ModelType::Classic);
    assert!(r.is_visible(&BodyPart::HeadOuter));
    r.set_body_part_active(&BodyPart::HeadOuter, false);
    assert!(!r.is_visible(&BodyPart::HeadOuter));
    assert!(r.is_visible(&BodyPart::Head));
    r.set_grid_show(false);
    assert!(!r.grid);
}

#[test]
fn painting_past_the_last_cell_changes_nothing() {
    let mut r = Renderer::new(ModelType::Classic);
    let before: Vec<Vec<Color>> = r.model_objects.iter().map(|o| o.get_pixels()).collect();
    r.set_cell(&ModelCell { body_part: BodyPart::Head, cell_index: 384, color: Color::new(1, 2, 3, 4) });
    let after: Vec<Vec<Color>> = r.model_objects.iter().map(|o| o.get_pixels()).collect();
    assert_eq!(before, after);
    assert_eq!(r.get_pixel(BodyPart::Head, 384), None);
}

#[test]
fn dialog_answers_and_guess() {
    assert_eq!(SkinDialogResponse::Slim.model_type(), Some(ModelType::Slim));
    assert_eq!(SkinDialogResponse::Classic.model_type(), Some(ModelType::Classic));
    assert_eq!(SkinDialogResponse::Discard.model_type(), None);
    assert_eq!(guess_model_type(&[1, 2, 3]), Ok(ModelType::Classic));
    assert_eq!(BodyPart::from_index(7), BodyPart::TorsoOuter);
    assert_eq!(BodyPart::LeftLegOuter.index(), 11);
}

#[test]
fn layer_switches_gate_part_switches() {
    let mut r = Renderer::new(ModelType::Classic);
    let t = PartToggles {
        head: true,
        torso: false,
        right_arm: true,
        left_arm: true,
        right_leg: true,
        left_leg: true,
        inner_layer: true,
        outer_layer: false,
    };
    r.apply_toggles(&t);
    assert!(r.is_visible(&BodyPart::Head));
    assert!(!r.is_visible(&BodyPart::Torso));
    assert!(!r.is_visible(&BodyPart::HeadOuter));
    assert!(r.is_visible(&BodyPart::LeftLeg));
    let all_outer = PartToggles { inner_layer: false, outer_layer: true, ..t };
    r.apply_toggles(&all_outer);
    assert!(!r.is_visible(&BodyPart::Head));
    assert!(r.is_visible(&BodyPart::HeadOuter));
    assert!(!r.is_visible(&BodyPart::TorsoOuter));
}

#[test]
fn grid_overlays_follow_the_variant() {
    let mut r = Renderer::new(ModelType::Classic);
    assert_eq!(r.grid_objects.len(), 12);
    assert_eq!(r.grid_objects[0].len(), 6 * 18 * 2);
    let classic_arm = r.grid_objects[2].len();
    r.reset_model_type(ModelType::Slim);
    assert_eq!(r.grid_objects[2].len(), 2 * (2 * (4 + 13) + 2 * (5 + 13) + 2 * (4 + 5)));
    assert_ne!(r.grid_objects[2].len(), classic_arm);
    assert_eq!(r.grid_objects[4].len(), classic_arm);
}
