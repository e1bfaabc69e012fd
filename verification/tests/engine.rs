//! Tests of the processor, the image operations and the gamma curve.

use colordeck::fixed::ONE;
use colordeck::files::{format_for_extension, FileFormat};
use colordeck::gamma::{linear_to_srgb, srgb_to_linear};
use colordeck::image::Image;
use colordeck::pixel::Pixel;
use colordeck::process::Processor;
use colordeck::texture::Texture;

fn pixels(img: &Image) -> Vec<(u64, u64, u64)> {
    img.texture.data.iter().map(|p| (p.r, p.g, p.b)).collect()
}

#[test]
fn gamma_decode_values() {
    assert_eq!(srgb_to_linear(0), 0);
    assert_eq!(srgb_to_linear(1), 5);
    assert_eq!(srgb_to_linear(64), 47_775);
    assert_eq!(srgb_to_linear(128), 219_518);
    assert_eq!(srgb_to_linear(145), 288_815);
    assert_eq!(srgb_to_linear(175), 436_811);
    assert_eq!(srgb_to_linear(255), 1_000_000);
}

#[test]
fn gamma_encode_values() {
    assert_eq!(linear_to_srgb(0), 0);
    assert_eq!(linear_to_srgb(500_000), 186);
    assert_eq!(linear_to_srgb(1_000_000), 255);
    assert_eq!(linear_to_srgb(100_000_000), 255);
    assert_eq!(linear_to_srgb(288_815), 145);
}

#[test]
fn gamma_byte_round_trip() {
    for c in 0..=255u8 {
        assert_eq!(linear_to_srgb(srgb_to_linear(c)), c);
    }
}

#[test]
fn extension_table() {
    assert_eq!(format_for_extension(b"png"), Some(FileFormat::Png));
    assert_eq!(format_for_extension(b"jpg"), Some(FileFormat::Jpeg));
    assert_eq!(format_for_extension(b"jpeg"), Some(FileFormat::Jpeg));
    assert_eq!(format_for_extension(b"gif"), Some(FileFormat::Gif));
    assert_eq!(format_for_extension(b"webp"), Some(FileFormat::WebP));
    assert_eq!(format_for_extension(b"pnm"), Some(FileFormat::Pnm));
    assert_eq!(format_for_extension(b"tiff"), Some(FileFormat::Tiff));
    assert_eq!(format_for_extension(b"tga"), Some(FileFormat::Tga));
    assert_eq!(format_for_extension(b"bmp"), Some(FileFormat::Bmp));
    assert_eq!(format_for_extension(b"ico"), Some(FileFormat::Ico));
    assert_eq!(format_for_extension(b"hdr"), Some(FileFormat::Hdr));
    assert_eq!(format_for_extension(b"txt"), None);
    assert_eq!(format_for_extension(b"PNG"), None);
    assert_eq!(format_for_extension(b""), None);
    assert_eq!(format_for_extension(b"jpegg"), None);
}

#[test]
fn shader_cache_compiles_once() {
    let mut p = Processor::new(2, 2);
    assert_eq!(p.n_compiled(), 0);
    let a = Image::monochrome(&p, 3, 5, 7);
    let _ = a.uscale(&mut p, ONE);
    assert_eq!(p.n_compiled(), 1);
    let _ = a.uscale(&mut p, ONE / 2);
    assert_eq!(p.n_compiled(), 1);
    let _ = a.permute(&mut p, 0, 2, 1);
    assert_eq!(p.n_compiled(), 1);
    let _ = Image::add(&mut p, &a, &a);
    assert_eq!(p.n_compiled(), 2);
    let _ = Image::add(&mut p, &a, &a);
    assert_eq!(p.n_compiled(), 2);
    let _ = Image::mul(&mut p, &a, &a);
    assert_eq!(p.n_compiled(), 3);
}

#[test]
fn identity_permutation() {
    let mut p = Processor::new(2, 2);
    let a = Image::monochrome(&p, 3, 5, 7);
    let out = a.permute(&mut p, 0, 1, 2);
    assert_eq!(out.texture.data.len(), 4);
    for px in out.texture.data.iter() {
        assert_eq!((px.r, px.g, px.b), (3, 5, 7));
    }
}

#[test]
fn swap_permutation() {
    let mut p = Processor::new(2, 2);
    let a = Image::monochrome(&p, 3, 5, 7);
    // Input channel 0 lands in output channel 1 and the other way
    // around; blue stays.
    let out = a.permute(&mut p, 1, 0, 2);
    for px in out.texture.data.iter() {
        assert_eq!((px.r, px.g, px.b), (5, 3, 7));
    }
}

#[test]
fn self_difference_is_black() {
    let mut p = Processor::new(3, 2);
    let a = Image::random(&p);
    let d = Image::diff(&mut p, &a, &a, true);
    assert_eq!(d.texture.data.len(), 6);
    for px in d.texture.data.iter() {
        assert_eq!((px.r, px.g, px.b), (0, 0, 0));
    }
}

#[test]
fn additive_identity() {
    let mut p = Processor::new(3, 2);
    let a = Image::random(&p);
    let zero = Image::grayscale(&p, 0);
    let s = Image::add(&mut p, &a, &zero);
    assert_eq!(pixels(&s), pixels(&a));
}

#[test]
fn multiplicative_identity() {
    let mut p = Processor::new(3, 2);
    let a = Image::random(&p);
    let white = Image::grayscale(&p, ONE);
    let s = Image::mul(&mut p, &a, &white);
    assert_eq!(pixels(&s), pixels(&a));
}

#[test]
fn rgb_xyz_round_trip() {
    let mut p = Processor::new(2, 2);
    let a = Image::monochrome(&p, 500_000, 200_000, 700_000);
    let b = a.rgb_to_xyz(&mut p);
    let c = b.xyz_to_rgb(&mut p);
    for px in b.texture.data.iter() {
        assert_eq!((px.r, px.g, px.b), (404_038, 299_885, 698_664));
    }
    for px in c.texture.data.iter() {
        assert_eq!((px.r, px.g, px.b), (499_999, 199_998, 699_999));
        assert!(px.r.abs_diff(500_000) <= 10);
        assert!(px.g.abs_diff(200_000) <= 10);
        assert!(px.b.abs_diff(700_000) <= 10);
    }
}

#[test]
fn shift_wraps_around() {
    let mut p = Processor::new(2, 1);
    let t = Texture {
        width: 2,
        height: 1,
        data: vec![Pixel { r: 10, g: 20, b: 30 }, Pixel { r: 40, g: 50, b: 60 }],
    };
    let img = Image::from_texture(t);
    let out = img.shift(&mut p, 500_000, 0);
    assert_eq!(pixels(&out), vec![(40, 50, 60), (10, 20, 30)]);
    let out0 = img.shift(&mut p, 0, 0);
    assert_eq!(pixels(&out0), vec![(10, 20, 30), (40, 50, 60)]);
}

#[test]
fn load_reverses_rows_and_linearizes() {
    let mut p = Processor::new(1, 2);
    // One red pixel on the top row, one green pixel below it.
    let bytes: Vec<u8> = vec![255, 0, 0, 0, 255, 0];
    let img = Image::new(&mut p, &bytes);
    // Texture rows run bottom-up: the green row comes first.
    assert_eq!(pixels(&img), vec![(0, 1_000_000, 0), (1_000_000, 0, 0)]);
}

#[test]
fn save_restores_loaded_bytes() {
    let mut p = Processor::new(2, 2);
    let bytes: Vec<u8> = vec![255, 0, 0, 0, 255, 0, 0, 0, 255, 17, 130, 201];
    let img = Image::new(&mut p, &bytes);
    assert_eq!(img.to_srgb_bytes(), bytes);
}

#[test]
fn visualize_passes_the_frame_through() {
    let mut p = Processor::new(2, 2);
    let a = Image::monochrome(&p, 11, 22, 33);
    let frame = a.visualize(&mut p);
    assert_eq!(frame.width, 2);
    assert_eq!(frame.height, 2);
    assert_eq!(frame.data.len(), 4);
    for px in frame.data.iter() {
        assert_eq!((px.r, px.g, px.b), (11, 22, 33));
    }
}

#[test]
fn random_fills_with_unit_range_noise() {
    let p = Processor::new(4, 3);
    let a = Image::random(&p);
    assert_eq!(a.texture.data.len(), 12);
    for px in a.texture.data.iter() {
        assert!(px.r < ONE && px.g < ONE && px.b < ONE);
    }
}

#[test]
fn channel_isolation() {
    let mut p = Processor::new(2, 1);
    let a = Image::monochrome(&p, 3, 5, 7);
    assert_eq!(pixels(&a.r(&mut p)), vec![(3, 0, 0), (3, 0, 0)]);
    assert_eq!(pixels(&a.g(&mut p)), vec![(0, 5, 0), (0, 5, 0)]);
    assert_eq!(pixels(&a.b(&mut p)), vec![(0, 0, 7), (0, 0, 7)]);
    assert_eq!(pixels(&a.x(&mut p)), vec![(3, 0, 0), (3, 0, 0)]);
    assert_eq!(pixels(&a.y(&mut p)), vec![(0, 5, 0), (0, 5, 0)]);
    assert_eq!(pixels(&a.z(&mut p)), vec![(0, 0, 7), (0, 0, 7)]);
}

#[test]
fn scaling_clamps_at_channel_ceiling() {
    let mut p = Processor::new(1, 1);
    let a = Image::monochrome(&p, 1_000_000, 2, 0);
    // A factor of two hundred pushes red past the ceiling of 100.0.
    let out = a.uscale(&mut p, 200 * ONE);
    assert_eq!(pixels(&out), vec![(100_000_000, 400, 0)]);
}
