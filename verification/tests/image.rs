use vm::gamma::gamma_correct;
use vm::image::{marker_position, Color, Image};

#[test]
fn gamma_endpoints_are_fixed() {
    assert_eq!(gamma_correct(0), 0);
    assert_eq!(gamma_correct(255), 255);
}

#[test]
fn gamma_darkens_midrange() {
    // round(v * v / 255) for a few values.
    assert_eq!(gamma_correct(128), 64);
    assert_eq!(gamma_correct(16), 1);
    assert_eq!(gamma_correct(64), 16);
}

#[test]
fn color_gamma_correct_applies_per_channel() {
    let c = Color { r: 255, g: 128, b: 0 };
    let g = c.gamma_correct();
    assert_eq!(g, Color { r: 255, g: 64, b: 0 });
}

#[test]
fn new_solid_fills_every_pixel() {
    let c = Color { r: 1, g: 2, b: 3 };
    let im = Image::new_solid(c);
    for row in 0..8 {
        for col in 0..8 {
            assert_eq!(im.get(row, col), c);
        }
    }
}

#[test]
fn new_im_keeps_the_buffer() {
    let mut buffer = [Color { r: 0, g: 0, b: 0 }; 64];
    for i in 0..64 {
        buffer[i] = Color { r: i as u8, g: 0, b: 255 - i as u8 };
    }
    let im = Image::new_im(buffer);
    for row in 0..8 {
        for col in 0..8 {
            assert_eq!(im.get(row, col), buffer[row * 8 + col]);
        }
    }
}

#[test]
fn row_borrows_eight_pixels() {
    let mut buffer = [Color { r: 0, g: 0, b: 0 }; 64];
    for i in 0..64 {
        buffer[i] = Color { r: i as u8, g: i as u8, b: i as u8 };
    }
    let im = Image::new_im(buffer);
    let row = im.row(3);
    assert_eq!(row.len(), 8);
    assert_eq!(row, &buffer[24..32]);
}

#[test]
fn set_replaces_one_pixel() {
    let mut im = Image::default();
    let c = Color { r: 9, g: 8, b: 7 };
    im.set(2, 5, c);
    assert_eq!(im.get(2, 5), c);
    assert_eq!(im.get(2, 4), Color { r: 0, g: 0, b: 0 });
}

#[test]
fn gradient_scales_by_position() {
    let white = Color { r: 255, g: 255, b: 255 };
    let im = Image::gradient(white);
    // factor 1 at the origin, 2 at (0,1) and (1,0), 57 at (7,7);
    // each channel is round(255 / factor).
    assert_eq!(im.get(0, 0), Color { r: 255, g: 255, b: 255 });
    assert_eq!(im.get(0, 1), Color { r: 128, g: 128, b: 128 });
    assert_eq!(im.get(1, 0), Color { r: 128, g: 128, b: 128 });
    assert_eq!(im.get(1, 1), Color { r: 85, g: 85, b: 85 });
    assert_eq!(im.get(7, 7), Color { r: 4, g: 4, b: 4 });
}

#[test]
fn gradient_of_black_is_black() {
    let im = Image::gradient(Color { r: 0, g: 0, b: 0 });
    for row in 0..8 {
        for col in 0..8 {
            assert_eq!(im.get(row, col), Color { r: 0, g: 0, b: 0 });
        }
    }
}

#[test]
fn marker_position_finds_the_first_marker() {
    assert_eq!(marker_position(&[0, 1, 0xFF, 3, 0xFF]), Some(2));
    assert_eq!(marker_position(&[0xFF]), Some(0));
    assert_eq!(marker_position(&[1, 2, 3]), None);
    assert_eq!(marker_position(&[]), None);
}
