use std::io::Cursor;

use art_engine::compositor::{overlay_images, overlay_layers, Canvas, CompositeError};

fn solid(w: u32, h: u32, px: [u8; 4]) -> Canvas {
    let bytes: Vec<u8> = (0..w * h).flat_map(|_| px).collect();
    Canvas::from_rgba(w, h, bytes).unwrap()
}

fn png(w: u32, h: u32, px: [u8; 4]) -> Vec<u8> {
    let img = image::RgbaImage::from_pixel(w, h, image::Rgba(px));
    let mut out = Cursor::new(Vec::new());
    img.write_to(&mut out, image::ImageOutputFormat::Png).unwrap();
    out.into_inner()
}

fn pixel(c: &Canvas, x: u32, y: u32) -> [u8; 4] {
    let (w, _) = c.dimensions();
    let bytes = c.to_rgba_bytes();
    let k = ((y * w + x) * 4) as usize;
    [bytes[k], bytes[k + 1], bytes[k + 2], bytes[k + 3]]
}

#[test]
fn later_opaque_layer_wins() {
    let red = solid(4, 4, [255, 0, 0, 255]);
    let blue = solid(4, 4, [0, 0, 255, 255]);
    let out = overlay_layers(4, false, &vec![red, blue]);
    assert_eq!(out.dimensions(), (4, 4));
    for y in 0..4 {
        for x in 0..4 {
            assert_eq!(pixel(&out, x, y), [0, 0, 255, 255]);
        }
    }
}

#[test]
fn empty_composite_is_transparent() {
    let out = overlay_layers(3, true, &vec![]);
    assert_eq!(out.dimensions(), (3, 3));
    assert_eq!(out.to_rgba_bytes(), [255u8, 255, 255, 0].repeat(9));
}

#[test]
fn transparent_layer_leaves_canvas() {
    let green = solid(2, 2, [0, 255, 0, 255]);
    let clear = solid(2, 2, [9, 9, 9, 0]);
    let out = overlay_layers(2, false, &vec![green, clear]);
    assert_eq!(pixel(&out, 1, 1), [0, 255, 0, 255]);
}

#[test]
fn different_sizes_without_resize_sit_at_origin() {
    let sources = vec![png(4, 4, [0, 255, 0, 255]), png(2, 2, [0, 0, 255, 255])];
    let out = overlay_images(4, false, &sources).unwrap();
    assert_eq!(out.dimensions(), (4, 4));
    for y in 0..4 {
        for x in 0..4 {
            let expected = if x < 2 && y < 2 { [0, 0, 255, 255] } else { [0, 255, 0, 255] };
            assert_eq!(pixel(&out, x, y), expected, "pixel ({}, {})", x, y);
        }
    }
}

#[test]
fn larger_layer_is_cropped_to_canvas() {
    let sources = vec![png(6, 3, [10, 20, 30, 255])];
    let out = overlay_images(4, false, &sources).unwrap();
    assert_eq!(pixel(&out, 3, 2), [10, 20, 30, 255]);
    assert_eq!(pixel(&out, 3, 3), [255, 255, 255, 0]);
}

#[test]
fn resize_fills_the_canvas() {
    let sources = vec![png(2, 2, [200, 0, 0, 255])];
    let out = overlay_images(4, true, &sources).unwrap();
    assert_eq!(out.dimensions(), (4, 4));
    assert!(pixel(&out, 3, 3)[3] > 0);
    let plain = overlay_images(4, false, &sources).unwrap();
    assert_eq!(pixel(&plain, 3, 3), [255, 255, 255, 0]);
}

#[test]
fn undecodable_source_is_reported() {
    let sources = vec![png(1, 1, [0, 0, 0, 255]), b"not an image".to_vec(), vec![]];
    match overlay_images(2, false, &sources) {
        Err(CompositeError::Decode(i)) => assert_eq!(i, 1),
        Ok(_) => panic!("decoding must fail"),
    }
}

#[test]
fn raw_canvas_needs_exact_length() {
    assert!(Canvas::from_rgba(2, 2, vec![0; 15]).is_none());
    assert!(Canvas::from_rgba(2, 2, vec![0; 17]).is_none());
    let c = Canvas::from_rgba(2, 1, vec![1, 2, 3, 4, 5, 6, 7, 8]).unwrap();
    assert_eq!(pixel(&c, 1, 0), [5, 6, 7, 8]);
}
