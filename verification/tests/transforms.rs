use image::GenericImageView;
use rit::config::{Config, ResizeOption};
use rit::picture::Img;
use rit::transform::{process_image, transform_feasible};

fn px(v: u8) -> image::Rgba<u8> {
    image::Rgba([v, 10, 20, 255])
}

fn make_img(w: u32, h: u32, values: &[&[u8]]) -> Img {
    let mut buf = image::RgbaImage::new(w, h);
    for y in 0..h {
        for x in 0..w {
            buf.put_pixel(x, y, px(values[y as usize][x as usize]));
        }
    }
    Img::from_dynamic(image::DynamicImage::ImageRgba8(buf))
}

fn blank_img(w: u32, h: u32) -> Img {
    Img::from_dynamic(image::DynamicImage::ImageRgba8(image::RgbaImage::new(w, h)))
}

fn red_at(img: &Img, x: u32, y: u32) -> u8 {
    img.pixel_at(x, y).0
}

fn no_transform() -> Config {
    Config { resize: None, rotate: None, flip_horizontal: false, flip_vertical: false }
}

#[test]
fn fliph_mirrors_rows() {
    let img = make_img(2, 1, &[&[1, 2]]);
    let flipped = img.fliph();
    assert_eq!(flipped.dims(), (2, 1));
    assert_eq!(red_at(&flipped, 0, 0), 2);
    assert_eq!(red_at(&flipped, 1, 0), 1);
}

#[test]
fn flipv_mirrors_columns() {
    let img = make_img(1, 2, &[&[1], &[2]]);
    let flipped = img.flipv();
    assert_eq!(flipped.dims(), (1, 2));
    assert_eq!(red_at(&flipped, 0, 0), 2);
    assert_eq!(red_at(&flipped, 0, 1), 1);
}

#[test]
fn fliph_twice_is_identity() {
    let img = make_img(3, 2, &[&[1, 2, 3], &[4, 5, 6]]);
    let back = img.fliph().fliph();
    assert_eq!(back.dims(), (3, 2));
    for y in 0..2 {
        for x in 0..3 {
            assert_eq!(red_at(&back, x, y), red_at(&img, x, y));
        }
    }
}

#[test]
fn rotate90_quarter_turn() {
    let img = make_img(2, 1, &[&[1, 2]]);
    let turned = img.rotate90();
    assert_eq!(turned.dims(), (1, 2));
    assert_eq!(red_at(&turned, 0, 0), 1);
    assert_eq!(red_at(&turned, 0, 1), 2);
}

#[test]
fn rotate90_four_times_is_identity() {
    let img = make_img(2, 2, &[&[1, 2], &[3, 4]]);
    let back = img.rotate90().rotate90().rotate90().rotate90();
    assert_eq!(back.dims(), (2, 2));
    for y in 0..2 {
        for x in 0..2 {
            assert_eq!(red_at(&back, x, y), red_at(&img, x, y));
        }
    }
}

#[test]
fn rotate180_half_turn() {
    let img = make_img(2, 2, &[&[1, 2], &[3, 4]]);
    let turned = img.rotate180();
    assert_eq!(turned.dims(), (2, 2));
    assert_eq!(red_at(&turned, 0, 0), 4);
    assert_eq!(red_at(&turned, 1, 0), 3);
    assert_eq!(red_at(&turned, 0, 1), 2);
    assert_eq!(red_at(&turned, 1, 1), 1);
}

#[test]
fn into_dynamic_hands_the_image_back() {
    let img = make_img(2, 1, &[&[1, 2]]);
    let dynamic = img.into_dynamic();
    assert_eq!(dynamic.dimensions(), (2, 1));
    assert_eq!(dynamic.get_pixel(0, 0).0[0], 1);
    assert_eq!(dynamic.get_pixel(1, 0).0[0], 2);
}

#[test]
fn rotate270_undoes_rotate90() {
    let img = make_img(3, 2, &[&[1, 2, 3], &[4, 5, 6]]);
    let back = img.rotate90().rotate270();
    assert_eq!(back.dims(), (3, 2));
    for y in 0..2 {
        for x in 0..3 {
            assert_eq!(red_at(&back, x, y), red_at(&img, x, y));
        }
    }
}

#[test]
fn percentage_resize_halves_dimensions() {
    let img = blank_img(800, 600);
    let mut cfg = no_transform();
    cfg.resize = Some(ResizeOption::Percentage(50));
    let out = process_image(img, &cfg);
    assert_eq!(out.dims(), (400, 300));
}

#[test]
fn exact_resize_ignores_aspect_ratio() {
    let img = blank_img(800, 600);
    let mut cfg = no_transform();
    cfg.resize = Some(ResizeOption::Exact(320, 240));
    let out = process_image(img, &cfg);
    assert_eq!(out.dims(), (320, 240));
}

#[test]
fn percentage_resize_floors_each_axis_independently() {
    let img = blank_img(800, 601);
    let mut cfg = no_transform();
    cfg.resize = Some(ResizeOption::Percentage(50));
    let out = process_image(img, &cfg);
    assert_eq!(out.dims(), (400, 300));
}

#[test]
fn fixed_width_resize_preserves_aspect_ratio() {
    let img = blank_img(800, 600);
    let mut cfg = no_transform();
    cfg.resize = Some(ResizeOption::Width(400));
    let out = process_image(img, &cfg);
    assert_eq!(out.dims(), (400, 300));
}

#[test]
fn fixed_width_resize_enlarges_past_the_source() {
    let img = blank_img(800, 600);
    let mut cfg = no_transform();
    cfg.resize = Some(ResizeOption::Width(1600));
    let out = process_image(img, &cfg);
    assert_eq!(out.dims(), (1600, 1200));
}

#[test]
fn fixed_height_resize_preserves_aspect_ratio() {
    let img = blank_img(800, 600);
    let mut cfg = no_transform();
    cfg.resize = Some(ResizeOption::Height(150));
    let out = process_image(img, &cfg);
    assert_eq!(out.dims(), (200, 150));
}

#[test]
fn valid_rotation_swaps_dimensions() {
    let img = blank_img(4, 2);
    let mut cfg = no_transform();
    cfg.rotate = Some(90);
    let out = process_image(img, &cfg);
    assert_eq!(out.dims(), (2, 4));
}

#[test]
fn invalid_rotation_is_a_no_op() {
    let img = make_img(2, 1, &[&[1, 2]]);
    let mut cfg = no_transform();
    cfg.rotate = Some(45);
    let out = process_image(img, &cfg);
    assert_eq!(out.dims(), (2, 1));
    assert_eq!(red_at(&out, 0, 0), 1);
    assert_eq!(red_at(&out, 1, 0), 2);
}

#[test]
fn pipeline_applies_flips_after_rotation() {
    let img = make_img(2, 2, &[&[1, 2], &[3, 4]]);
    let mut cfg = no_transform();
    cfg.rotate = Some(90);
    cfg.flip_horizontal = true;
    let out = process_image(img, &cfg);
    assert_eq!(out.dims(), (2, 2));
    // rotate90 of [[1,2],[3,4]] is [[3,1],[4,2]]; flipping it horizontally
    // gives [[1,3],[2,4]].
    assert_eq!(red_at(&out, 0, 0), 1);
    assert_eq!(red_at(&out, 1, 0), 3);
    assert_eq!(red_at(&out, 0, 1), 2);
    assert_eq!(red_at(&out, 1, 1), 4);
}

#[test]
fn feasibility_check_matches_the_pipeline_precondition() {
    let img = blank_img(800, 600);
    let mut cfg = no_transform();
    assert!(transform_feasible(&img, &cfg));
    cfg.resize = Some(ResizeOption::Percentage(50));
    assert!(transform_feasible(&img, &cfg));
    cfg.resize = Some(ResizeOption::Exact(u32::MAX, u32::MAX));
    assert!(!transform_feasible(&img, &cfg));
}
