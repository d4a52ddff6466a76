use ledge_engine::graphics::animation::{frame_cell, next_frame};
use ledge_engine::graphics::image::{decode_png, image_buffer_len, ImageError};
use ledge_engine::graphics::shader::{
    blend_settings, AttachmentBlend, AttachmentBlendKind, BlendFactor, BlendOp, LogicOp,
};
use ledge_engine::graphics::sprite::SpriteBatch;
use ledge_engine::graphics::text::{glyph_cell, layout_glyphs, Div, GlyphPlacement};
use ledge_engine::graphics::BlendMode;

const TWO_PIXELS: [u8; 72] = [
    137, 80, 78, 71, 13, 10, 26, 10, 0, 0, 0, 13, 73, 72, 68, 82, 0, 0, 0, 2, 0, 0, 0, 1, 8, 6,
    0, 0, 0, 244, 34, 127, 138, 0, 0, 0, 15, 73, 68, 65, 84, 120, 156, 99, 248, 207, 192, 240, 31,
    8, 27, 0, 16, 121, 3, 126, 125, 99, 206, 215, 0, 0, 0, 0, 73, 69, 78, 68, 174, 66, 96, 130,
];

#[test]
fn next_frame_cycles_through_the_range() {
    assert_eq!(next_frame(3, 3, 2), 4);
    assert_eq!(next_frame(4, 3, 2), 3);
    assert_eq!(next_frame(9, 3, 2), 3);
    assert_eq!(next_frame(4, 0, 5), 0);
    assert_eq!(next_frame(3, 0, 5), 4);
    assert_eq!(next_frame(7, 7, 1), 7);
}

#[test]
fn frame_cell_splits_column_and_row() {
    assert_eq!(frame_cell(7, 3), (1, 2));
    assert_eq!(frame_cell(0, 4), (0, 0));
    assert_eq!(frame_cell(4, 4), (0, 1));
}

#[test]
fn layout_places_glyphs_on_columns_and_lines() {
    let text: Vec<char> = "AB C\nD".chars().collect();
    let r = layout_glyphs(&text);
    assert_eq!(
        r,
        vec![
            GlyphPlacement { glyph: 'A', column: 0, line: 0 },
            GlyphPlacement { glyph: 'B', column: 1, line: 0 },
            GlyphPlacement { glyph: 'C', column: 3, line: 0 },
            GlyphPlacement { glyph: 'D', column: 0, line: 1 },
        ]
    );
    assert!(layout_glyphs(&Vec::new()).is_empty());
    assert!(layout_glyphs(&vec![' ', '\n', ' ']).is_empty());
}

#[test]
fn glyph_cell_counts_from_the_letter_a() {
    assert_eq!(glyph_cell('A', 8), (0, 0));
    assert_eq!(glyph_cell('J', 8), (1, 1));
    assert_eq!(glyph_cell('z', 16), (9, 3));
}

#[test]
fn blend_settings_per_mode() {
    let add = blend_settings(BlendMode::Add);
    assert_eq!(add.logic_op, None);
    assert_eq!(
        add.attachment,
        Some(AttachmentBlendKind::Equation(AttachmentBlend {
            color_op: BlendOp::Add,
            color_source: BlendFactor::One,
            color_destination: BlendFactor::One,
            alpha_op: BlendOp::Add,
            alpha_source: BlendFactor::One,
            alpha_destination: BlendFactor::One,
        }))
    );
    let sub = blend_settings(BlendMode::Subtract);
    assert!(matches!(
        sub.attachment,
        Some(AttachmentBlendKind::Equation(AttachmentBlend { color_op: BlendOp::Subtract, .. }))
    ));
    assert_eq!(blend_settings(BlendMode::Alpha).attachment, Some(AttachmentBlendKind::StandardAlpha));
    let inv = blend_settings(BlendMode::Invert);
    assert_eq!(inv.logic_op, Some(LogicOp::Invert));
    assert_eq!(inv.attachment, None);
}

#[test]
fn image_buffer_len_uses_eight_bytes_per_pixel() {
    assert_eq!(image_buffer_len(2, 3), Some(48));
    assert_eq!(image_buffer_len(0, 100), Some(0));
    assert_eq!(image_buffer_len(65536, 65536), None);
    assert_eq!(image_buffer_len(1 << 15, 1 << 14), None);
}

#[test]
fn decode_png_reads_size_and_pixels() {
    let img = decode_png(&TWO_PIXELS.to_vec()).unwrap();
    assert_eq!(img.width, 2);
    assert_eq!(img.height, 1);
    assert_eq!(img.data.len(), 16);
    assert_eq!(&img.data[0..8], &[255, 0, 0, 255, 0, 255, 0, 128]);
    assert!(img.data[8..].iter().all(|&b| b == 0));
}

#[test]
fn decode_png_rejects_what_is_not_png() {
    assert!(matches!(decode_png(&vec![1, 2, 3]), Err(ImageError::Header)));
    let mut cut = TWO_PIXELS.to_vec();
    cut.truncate(50);
    assert!(matches!(decode_png(&cut), Err(ImageError::Frame)));
}

#[test]
fn sprite_batch_counts_and_removes() {
    let mut b: SpriteBatch<&str, u32> = SpriteBatch::new("sheet");
    assert_eq!(b.insert(10), 1);
    assert_eq!(b.insert(20), 2);
    assert_eq!(b.insert(30), 3);
    b.remove(0);
    assert_eq!(b.count(), 2);
    b.clear();
    assert_eq!(b.count(), 0);
}

#[test]
fn div_is_a_plain_box() {
    let _d = Div::new();
}

use ledge_engine::graphics::renderer::{device_rank, pick_device, DeviceType};

#[test]
fn pick_device_prefers_discrete_then_first() {
    assert_eq!(pick_device(&vec![]), None);
    assert_eq!(
        pick_device(&vec![DeviceType::Cpu, DeviceType::IntegratedGpu, DeviceType::DiscreteGpu, DeviceType::DiscreteGpu]),
        Some(2)
    );
    assert_eq!(pick_device(&vec![DeviceType::Other, DeviceType::VirtualGpu, DeviceType::VirtualGpu]), Some(1));
    assert_eq!(device_rank(DeviceType::Other), 4);
}
