use appreels::raster::{alpha_composite, rounded_alpha, rounded_window, shadow_mask, Image};
use appreels::style::style_from_seed;

/// The corner opacity computed in single-precision floating point, as the
/// renderer's float pipeline does, to compare with the exact integer version.
fn float_alpha(x: u32, y: u32, width: u32, height: u32, radius: u32) -> u8 {
    if radius == 0 || width <= radius * 2 || height <= radius * 2 {
        return 255;
    }
    let cx = if x < radius {
        Some(radius as i32)
    } else if x >= width - radius {
        Some((width - radius - 1) as i32)
    } else {
        None
    };
    let cy = if y < radius {
        Some(radius as i32)
    } else if y >= height - radius {
        Some((height - radius - 1) as i32)
    } else {
        None
    };
    let (Some(cx), Some(cy)) = (cx, cy) else {
        return 255;
    };
    let dx = x as i32 - cx;
    let dy = y as i32 - cy;
    let distance = ((dx * dx + dy * dy) as f32).sqrt();
    let edge = radius as f32;
    if distance <= edge - 1.0 {
        255
    } else if distance >= edge {
        0
    } else {
        ((edge - distance) * 255.0).round() as u8
    }
}

#[test]
fn rounded_alpha_agrees_with_single_precision_up_to_radius_50() {
    for radius in 0..=50u32 {
        let size = 2 * radius + 3;
        for y in 0..size {
            for x in 0..size {
                assert_eq!(
                    rounded_alpha(x, y, size, size + 1, radius),
                    float_alpha(x, y, size, size + 1, radius),
                    "radius {radius} at ({x},{y})"
                );
            }
        }
    }
}

#[test]
fn rounded_alpha_is_opaque_away_from_corners_and_clear_at_the_tip() {
    assert_eq!(rounded_alpha(50, 0, 100, 100, 10), 255);
    assert_eq!(rounded_alpha(0, 0, 100, 100, 10), 0);
    assert_eq!(rounded_alpha(10, 10, 100, 100, 10), 255);
    assert_eq!(rounded_alpha(0, 0, 20, 100, 10), 255); // too narrow to round
    assert_eq!(rounded_alpha(0, 0, 100, 100, 0), 255);
}

fn blend_f32(s: u8, d: u8, a: u8) -> u8 {
    let alpha = f32::from(a) / 255.0;
    let inv = 1.0 - alpha;
    (f32::from(s) * alpha + f32::from(d) * inv).round() as u8
}

#[test]
fn composite_blend_agrees_with_single_precision() {
    for a in 1..=255u8 {
        for s in 0..=255u8 {
            for d in (0..=255u8).step_by(7) {
                let base = Image::from_raw(1, 1, vec![d, d, d, 255]).unwrap();
                let over = Image::from_raw(1, 1, vec![s, 0, 255, a]).unwrap();
                let mut b = base.clone();
                alpha_composite(&mut b, &over, 0, 0);
                assert_eq!(b.data[0], blend_f32(s, d, a), "s {s} d {d} a {a}");
                assert_eq!(b.data[1], blend_f32(0, d, a));
                assert_eq!(b.data[2], blend_f32(255, d, a));
                assert_eq!(b.data[3], 255);
            }
        }
    }
}

#[test]
fn composite_places_the_overlay_at_its_offset_and_skips_transparent_pixels() {
    let mut base = Image::from_raw(3, 2, vec![10; 24]).unwrap();
    // 2x1 overlay: an opaque red pixel and a transparent one.
    let over = Image::from_raw(2, 1, vec![255, 0, 0, 255, 0, 255, 0, 0]).unwrap();
    alpha_composite(&mut base, &over, 2, 1);
    // Pixel (2,1) is index 5; the transparent overlay pixel falls off the edge.
    assert_eq!(&base.data[20..24], &[255, 0, 0, 255]);
    assert!(base.data[..20].iter().all(|&b| b == 10));
    let mut base2 = Image::from_raw(2, 2, vec![7; 16]).unwrap();
    alpha_composite(&mut base2, &over, -1, -1);
    assert!(base2.data.iter().all(|&b| b == 7));
}

#[test]
fn rounded_window_only_changes_opacity_in_the_corners() {
    let img = Image::from_raw(40, 40, vec![200; 40 * 40 * 4]).unwrap();
    let out = rounded_window(&img, 10);
    assert_eq!((out.width, out.height), (40, 40));
    assert_eq!(&out.data[0..4], &[200, 200, 200, 0]); // corner tip is cleared
    let mid = (20 * 40 + 20) * 4;
    assert_eq!(&out.data[mid..mid + 4], &[200, 200, 200, 200]);
    for p in 0..40 * 40 {
        assert_eq!(&out.data[4 * p..4 * p + 3], &[200, 200, 200]);
        let a = rounded_alpha((p % 40) as u32, (p / 40) as u32, 40, 40, 10) as u16;
        assert_eq!(out.data[4 * p + 3] as u16, if a < 255 { 200 * a / 255 } else { 200 });
    }
}

#[test]
fn shadow_mask_is_offset_black_at_most_95() {
    let style = style_from_seed(42);
    let (w, h) = (30u32, 20u32);
    let cw = w + style.padding * 2;
    let ch = h + style.padding * 2 + style.shadow_offset_y as u32;
    let mask = shadow_mask(w, h, cw, ch, &style);
    assert_eq!((mask.width, mask.height), (cw, ch));
    let sx = style.padding;
    let sy = style.padding + style.shadow_offset_y as u32;
    let center = (((sy + 10) * cw + sx + 15) * 4) as usize;
    assert_eq!(&mask.data[center..center + 4], &[0, 0, 0, 95]);
    assert_eq!(&mask.data[0..4], &[0, 0, 0, 0]);
    assert!(mask.data.chunks(4).all(|p| p[0] == 0 && p[1] == 0 && p[2] == 0 && p[3] <= 95));
}

#[test]
fn from_raw_checks_the_buffer_size() {
    assert!(Image::from_raw(2, 2, vec![0; 15]).is_none());
    assert!(Image::from_raw(2, 2, vec![0; 16]).is_some());
    let t = Image::transparent(3, 1);
    assert_eq!(t.data, vec![0; 12]);
}
