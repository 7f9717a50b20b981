use skin_editor::atlas::{side_meta_of, Bitmap, SkinParser, TextureLoadError};
use skin_editor::codec::{pixels_from_rgba, rgba_from_pixels};
use skin_editor::{BodyPart, Color, CubeSide, ModelType, Renderer};

fn rect(model: ModelType, part: BodyPart, side: CubeSide) -> (u32, u32, u32, u32) {
    let m = side_meta_of(model, part, side);
    (m.position.x, m.position.y, m.dimensions.width, m.dimensions.height)
}

const PARTS: [BodyPart; 12] = [
    BodyPart::Head,
    BodyPart::Torso,
    BodyPart::RightArm,
    BodyPart::LeftArm,
    BodyPart::RightLeg,
    BodyPart::LeftLeg,
    BodyPart::HeadOuter,
    BodyPart::TorsoOuter,
    BodyPart::RightArmOuter,
    BodyPart::LeftArmOuter,
    BodyPart::RightLegOuter,
    BodyPart::LeftLegOuter,
];

const SIDES: [CubeSide; 6] = [
    CubeSide::Front,
    CubeSide::Left,
    CubeSide::Back,
    CubeSide::Right,
    CubeSide::Top,
    CubeSide::Bottom,
];

fn covered(model: ModelType, x: u32, y: u32) -> bool {
    PARTS.iter().any(|p| {
        SIDES.iter().any(|s| {
            let (rx, ry, w, h) = rect(model, *p, *s);
            rx <= x && x < rx + w && ry <= y && y < ry + h
        })
    })
}

/// An atlas with a distinct color on every texel that a face maps to.
fn patterned_atlas(model: ModelType) -> Bitmap {
    let mut pixels = Vec::new();
    for y in 0..64u32 {
        for x in 0..64u32 {
            if covered(model, x, y) {
                pixels.push(Color::new(x as u8 * 4, y as u8 * 4, (x ^ y) as u8, 255 - (x as u8)));
            } else {
                pixels.push(Color::new(0, 0, 0, 0));
            }
        }
    }
    Bitmap { width: 64, height: 64, pixels }
}

#[test]
fn layout_table_matches_skin_format() {
    assert_eq!(rect(ModelType::Classic, BodyPart::Head, CubeSide::Front), (8, 8, 8, 8));
    assert_eq!(rect(ModelType::Classic, BodyPart::Head, CubeSide::Right), (0, 8, 8, 8));
    assert_eq!(rect(ModelType::Classic, BodyPart::Head, CubeSide::Bottom), (16, 0, 8, 8));
    assert_eq!(rect(ModelType::Classic, BodyPart::Torso, CubeSide::Front), (20, 20, 8, 12));
    assert_eq!(rect(ModelType::Classic, BodyPart::Torso, CubeSide::Top), (20, 16, 8, 4));
    assert_eq!(rect(ModelType::Classic, BodyPart::RightArm, CubeSide::Back), (52, 20, 4, 12));
    assert_eq!(rect(ModelType::Slim, BodyPart::RightArm, CubeSide::Front), (44, 20, 3, 12));
    assert_eq!(rect(ModelType::Slim, BodyPart::RightArm, CubeSide::Left), (47, 20, 4, 12));
    assert_eq!(rect(ModelType::Slim, BodyPart::RightArm, CubeSide::Back), (51, 20, 3, 12));
    assert_eq!(rect(ModelType::Slim, BodyPart::LeftArmOuter, CubeSide::Bottom), (55, 48, 3, 4));
    assert_eq!(rect(ModelType::Classic, BodyPart::LeftArm, CubeSide::Front), (36, 52, 4, 12));
    assert_eq!(rect(ModelType::Classic, BodyPart::LeftLegOuter, CubeSide::Right), (0, 52, 4, 12));
    assert_eq!(rect(ModelType::Classic, BodyPart::RightLegOuter, CubeSide::Top), (4, 32, 4, 4));
    assert_eq!(rect(ModelType::Classic, BodyPart::HeadOuter, CubeSide::Back), (56, 8, 8, 8));
}

#[test]
fn faces_of_the_layout_do_not_overlap() {
    for model in [ModelType::Classic, ModelType::Slim] {
        let mut owner = vec![0u32; 64 * 64];
        for p in PARTS {
            for s in SIDES {
                let (x, y, w, h) = rect(model, p, s);
                for yy in y..y + h {
                    for xx in x..x + w {
                        owner[(yy * 64 + xx) as usize] += 1;
                    }
                }
            }
        }
        assert!(owner.iter().all(|n| *n <= 1));
    }
}

#[test]
fn decode_slices_faces_row_by_row() {
    let img = patterned_atlas(ModelType::Classic);
    let parser = SkinParser::new(&ModelType::Classic);
    let map = match parser.load_image(&img) {
        Ok(m) => m,
        Err(_) => panic!("a 64x64 atlas must load"),
    };
    assert_eq!(map.parts.len(), 12);
    let torso_front = &map.parts[1][0];
    assert_eq!(torso_front.len(), 96);
    assert_eq!(torso_front[0], img.pixels[20 * 64 + 20]);
    assert_eq!(torso_front[9], img.pixels[21 * 64 + 21]);
    let head_left = &map.parts[0][1];
    assert_eq!(head_left.len(), 64);
    assert_eq!(head_left[63], img.pixels[15 * 64 + 23]);
}

#[test]
fn decode_rejects_wrong_dimensions() {
    let img = Bitmap { width: 64, height: 32, pixels: vec![Color::new(0, 0, 0, 0); 64 * 32] };
    let parser = SkinParser::new(&ModelType::Classic);
    match parser.load_image(&img) {
        Err(TextureLoadError::ImageDimensionError { width, height }) => {
            assert_eq!((width, height), (64, 32));
        }
        _ => panic!("a 64x32 image must be refused"),
    }
}

#[test]
fn round_trip_classic_and_slim() {
    for model in [ModelType::Classic, ModelType::Slim] {
        let img = patterned_atlas(model);
        let mut renderer = Renderer::new(ModelType::Classic);
        assert!(renderer.load_texture(&img, model, false).is_ok());
        let out = renderer.export_texture();
        assert_eq!(out.width, 64);
        assert_eq!(out.height, 64);
        assert_eq!(out.pixels, img.pixels);
    }
}

#[test]
fn export_leaves_unmapped_texels_transparent() {
    let img = Bitmap { width: 64, height: 64, pixels: vec![Color::new(9, 9, 9, 255); 4096] };
    let mut renderer = Renderer::new(ModelType::Classic);
    assert!(renderer.load_texture(&img, ModelType::Classic, false).is_ok());
    let out = renderer.export_texture();
    assert_eq!(out.pixels[0], Color::new(0, 0, 0, 0));
    assert_eq!(out.pixels[8 * 64 + 8], Color::new(9, 9, 9, 255));
}

#[test]
fn rgba_bytes_group_into_texels() {
    let bytes = vec![1u8, 2, 3, 4, 5, 6, 7, 8];
    let pixels = pixels_from_rgba(&bytes);
    assert_eq!(pixels, vec![Color::new(1, 2, 3, 4), Color::new(5, 6, 7, 8)]);
    assert_eq!(rgba_from_pixels(&pixels), bytes);
}

fn png_bytes(width: u32, height: u32, rgba: Vec<u8>) -> Vec<u8> {
    let img = image::RgbaImage::from_raw(width, height, rgba).unwrap();
    let mut out = std::io::Cursor::new(Vec::new());
    img.write_to(&mut out, image::ImageOutputFormat::Png).unwrap();
    out.into_inner()
}

#[test]
fn load_from_png_bytes_decodes_texels() {
    let img = patterned_atlas(ModelType::Slim);
    let bytes = png_bytes(64, 64, rgba_from_pixels(&img.pixels));
    let parser = SkinParser::new(&ModelType::Slim);
    let map = match parser.load_from_bytes(&bytes) {
        Ok(m) => m,
        Err(_) => panic!("a 64x64 PNG must load"),
    };
    let direct = match parser.load_image(&img) {
        Ok(m) => m,
        Err(_) => panic!("a 64x64 atlas must load"),
    };
    assert_eq!(map.parts, direct.parts);
    assert_eq!(map.parts[2][0][0], img.pixels[20 * 64 + 44]);
}

#[test]
fn load_from_bytes_rejects_garbage_and_wrong_size() {
    let parser = SkinParser::new(&ModelType::Classic);
    assert!(matches!(parser.load_from_bytes(&[1, 2, 3, 4]), Err(TextureLoadError::Image(_))));
    let small = png_bytes(2, 1, vec![0; 8]);
    assert!(matches!(
        parser.load_from_bytes(&small),
        Err(TextureLoadError::ImageDimensionError { width: 2, height: 1 })
    ));
}

#[test]
fn failed_load_leaves_skin_untouched() {
    let mut renderer = Renderer::new(ModelType::Slim);
    let before = renderer.export_texture();
    assert!(renderer.load_texture_from_bytes(&[0, 1, 2], ModelType::Classic, false).is_err());
    assert_eq!(renderer.get_model_type(), ModelType::Slim);
    assert_eq!(renderer.export_texture().pixels, before.pixels);
}

#[test]
fn empty_slice_of_zero_width() {
    let img = patterned_atlas(ModelType::Classic);
    let parser = SkinParser::new(&ModelType::Classic);
    assert!(parser.image_slice(&img, 10, 10, 0, 5).is_empty());
    assert_eq!(parser.image_slice(&img, 8, 8, 2, 1), vec![img.pixels[8 * 64 + 8], img.pixels[8 * 64 + 9]]);
}
