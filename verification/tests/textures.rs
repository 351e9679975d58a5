use raytracer::fixed::Fp;
use raytracer::image::Image;
use raytracer::textures::{Texture, TextureChecker, TextureImage, TextureSolidColor};
use raytracer::vecmath::{Color3U8, Vec3, Vec3F};

fn v(x: i32, y: i32, z: i32) -> Vec3F {
    Vec3::new(Fp::from_milli(x), Fp::from_milli(y), Fp::from_milli(z))
}

fn colour(row: u8, col: u8) -> Vec3F {
    let bytes: Color3U8 = Vec3::new(row, col, 255);
    bytes.to_color()
}

fn numbered(width: u32, height: u32) -> Image {
    let mut image = Image::new(width, height);
    for row in 0..height {
        for col in 0..width {
            image.write_pixel(row, col, Vec3::new(row as u8, col as u8, 255));
        }
    }
    image
}

#[test]
fn new_image_is_black() {
    let image = Image::new(3, 2);
    assert_eq!((image.width, image.height), (3, 2));
    assert_eq!(image.pixels, vec![[0, 0, 0]; 6]);
    assert!(Image::new(0, 5).pixels.is_empty());
    assert!(Image::new(5, 0).pixels.is_empty());
}

#[test]
fn pixels_are_written_row_by_row() {
    let mut image = Image::new(3, 2);
    image.write_pixel(1, 2, Vec3::new(9, 8, 7));
    image.write_pixel(0, 1, Vec3::new(1, 2, 3));
    assert_eq!(image.pixels, vec![[0, 0, 0], [1, 2, 3], [0, 0, 0], [0, 0, 0], [0, 0, 0], [9, 8, 7]]);
    assert_eq!((image.width, image.height), (3, 2));
}

#[test]
fn rows_are_cut_to_the_width() {
    let mut image = Image::new(3, 3);
    image.write_row(1, &[[1, 1, 1], [2, 2, 2], [3, 3, 3], [4, 4, 4], [5, 5, 5]]);
    assert_eq!(image.pixels[..3], [[0, 0, 0]; 3]);
    assert_eq!(image.pixels[3..6], [[1, 1, 1], [2, 2, 2], [3, 3, 3]]);
    assert_eq!(image.pixels[6..], [[0, 0, 0]; 3]);
    image.write_row(2, &[[7, 7, 7]]);
    assert_eq!(image.pixels[6..], [[7, 7, 7], [0, 0, 0], [0, 0, 0]]);
    image.write_row(0, &[]);
    assert_eq!(image.pixels[..3], [[0, 0, 0]; 3]);
    let mut empty = Image::new(0, 2);
    empty.write_row(1, &[[1, 1, 1]]);
    assert!(empty.pixels.is_empty());
}

#[test]
fn pixel_under_a_point() {
    let image = numbered(4, 3);
    let at = |u: i32, w: i32| image.pixel_at_uv(Fp::from_milli(u), Fp::from_milli(w));
    assert_eq!(at(0, 0), colour(0, 0));
    assert_eq!(at(249, 332), colour(0, 0));
    assert_eq!(at(250, 334), colour(1, 1));
    assert_eq!(at(999, 999), colour(2, 3));
    assert_eq!(at(1000, 1000), colour(2, 3));
    assert_eq!(at(7000, -3000), colour(0, 3));
    assert_eq!(image.pixel_at_uv(Fp::max_value(), Fp::max_value()), colour(2, 3));
    assert_eq!(colour(1, 2), Vec3::new(Fp::from_raw(3_921_568), Fp::from_raw(7_843_137), Fp::one()));
}

#[test]
fn solid_colour_everywhere() {
    let tex = Texture::Solid(TextureSolidColor::new(v(100, 200, 300)));
    assert_eq!(tex.value(Fp::zero(), Fp::one(), v(5000, -3000, 20)), v(100, 200, 300));
    assert_eq!(TextureSolidColor::new(v(1, 2, 3)).value(), v(1, 2, 3));
}

#[test]
fn checker_by_the_parity_of_the_cell() {
    let odd = v(1000, 0, 0);
    let even = v(0, 0, 1000);
    let tex = TextureChecker::new(odd, even, Fp::from_milli(500));
    assert_eq!(tex.inv_scale, Fp::from_int(2));
    assert_eq!(tex.value(v(100, 100, 100)), even);
    assert_eq!(tex.value(v(600, 100, 100)), odd);
    assert_eq!(tex.value(v(600, 600, 100)), even);
    assert_eq!(tex.value(v(600, 600, 600)), odd);
    assert_eq!(tex.value(v(-100, 100, 100)), odd);
    assert_eq!(tex.value(v(-100, -100, 100)), even);
    assert_eq!(tex.value(v(-500, 0, 0)), odd);
    assert_eq!(tex.value(v(-501, 0, 0)), even);
    assert_eq!(tex.value(v(499, 0, 0)), even);
    assert_eq!(tex.value(v(500, 0, 0)), odd);
    assert_eq!(Texture::Checker(TextureChecker::new(odd, even, Fp::one())).value(Fp::zero(), Fp::zero(), v(1500, 0, 0)), odd);
}

#[test]
fn image_texture_turns_the_rows_over() {
    let tex = TextureImage::new(numbered(4, 3));
    let at = |u: i32, w: i32| tex.value(Fp::from_milli(u), Fp::from_milli(w));
    assert_eq!(at(0, 0), colour(2, 0));
    assert_eq!(at(0, 1000), colour(0, 0));
    assert_eq!(at(999, 500), colour(1, 3));
    assert_eq!(at(-500, 1700), colour(0, 0));
    assert_eq!(at(1700, -500), colour(2, 3));
    let whole = Texture::Image(TextureImage::new(numbered(4, 3)));
    assert_eq!(whole.value(Fp::from_milli(999), Fp::from_milli(500), v(0, 0, 0)), colour(1, 3));
}

#[test]
fn empty_image_texture_is_cyan() {
    let cyan = v(0, 1000, 1000);
    assert_eq!(TextureImage::new(Image::new(0, 3)).value(Fp::zero(), Fp::zero()), cyan);
    assert_eq!(TextureImage::new(Image::new(3, 0)).value(Fp::one(), Fp::one()), cyan);
}
