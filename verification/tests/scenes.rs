//! Tests of the scene state machines and the presentation.

use colordeck::fixed::ONE;
use colordeck::image::Image;
use colordeck::presentation::Presentation;
use colordeck::process::Processor;
use colordeck::recipes::{luma_random_mixes, mix_chroma_luma, pink_scale};
use colordeck::scene::movement::Movement;
use colordeck::scene::{Scene, SceneT, ViewChange};

fn pixels(img: &Image) -> Vec<(u64, u64, u64)> {
    img.texture.data.iter().map(|p| (p.r, p.g, p.b)).collect()
}

fn three_sources(p: &Processor) -> Vec<Image> {
    vec![
        Image::monochrome(p, 10, 11, 12),
        Image::monochrome(p, 20, 21, 22),
        Image::monochrome(p, 30, 31, 32),
    ]
}

#[test]
fn view_bounds_hold_at_both_ends() {
    let p = Processor::new(2, 2);
    let mut s = Scene::channels(three_sources(&p));
    assert_eq!(s.n_views(), 6);
    assert_eq!(s.current_view(), 0);
    for _ in 0..9 {
        s.next_view();
    }
    assert_eq!(s.current_view(), 5);
    for _ in 0..9 {
        s.previous_view();
    }
    assert_eq!(s.current_view(), 0);
}

#[test]
fn channels_table_views() {
    let mut p = Processor::new(2, 2);
    let mut s = Scene::channels(three_sources(&p));
    // View 2 is the identity ordering.
    s.set_view(2);
    let img = s.image(&mut p);
    for px in img.texture.data.iter() {
        assert_eq!((px.r, px.g, px.b), (10, 21, 32));
    }
    // View 3 swaps the outer sources.
    s.set_view(3);
    let img = s.image(&mut p);
    for px in img.texture.data.iter() {
        assert_eq!((px.r, px.g, px.b), (30, 21, 12));
    }
    // View 0 reads red from the second source and green from the
    // first.
    s.set_view(0);
    let img = s.image(&mut p);
    for px in img.texture.data.iter() {
        assert_eq!((px.r, px.g, px.b), (20, 11, 32));
    }
}

#[test]
fn combination_starts_fully_revealed() {
    let mut p = Processor::new(2, 2);
    let a = Image::monochrome(&p, 300_000, 300_000, 300_000);
    let b = Image::monochrome(&p, 800_000, 800_000, 800_000);
    let mut s = Scene::combination(21, a, b);
    assert_eq!(s.current_view(), 20);
    assert_eq!(s.n_views(), 21);
    // The blend weight is capped at 0.995, so the first image keeps
    // a 0.005 share.
    let img = s.image(&mut p);
    for px in img.texture.data.iter() {
        assert_eq!((px.r, px.g, px.b), (797_500, 797_500, 797_500));
    }
    // At view zero only the first image shows.
    s.set_view(0);
    let img = s.image(&mut p);
    for px in img.texture.data.iter() {
        assert_eq!((px.r, px.g, px.b), (300_000, 300_000, 300_000));
    }
}

#[test]
fn movement_without_shift_shows_the_background() {
    let mut p = Processor::new(3, 2);
    let mask = Image::grayscale(&p, ONE);
    let m = Movement::new(&mut p, mask);
    assert!(!m.shift);
    let background = pixels(&m.background);
    let img = m.image(&mut p);
    assert_eq!(pixels(&img), background);
}

#[test]
fn movement_toggle_flips_the_shift_mode() {
    let mut p = Processor::new(2, 2);
    let mask = Image::grayscale(&p, ONE / 2);
    let mut m = Movement::new(&mut p, mask);
    assert!(!m.shift);
    m.toggle();
    assert!(m.shift);
    let img = m.image(&mut p);
    assert_eq!(img.texture.data.len(), 4);
    m.toggle();
    assert!(!m.shift);
}

#[test]
fn scene_carryover_keeps_the_view() {
    let p = Processor::new(2, 2);
    let first = Scene::channels(three_sources(&p));
    let second = Scene::permutation(three_sources(&p), (0, 1, 2));
    let mut pres = Presentation::new(vec![(first, false), (second, true)]);
    pres.next_view();
    pres.next_view();
    assert_eq!(pres.current_view(), 2);
    pres.next_scene();
    assert_eq!(pres.i, 1);
    assert_eq!(pres.current_view(), 2);
}

#[test]
fn scene_carryover_clamps_the_view() {
    let p = Processor::new(2, 2);
    let first = Scene::channels(three_sources(&p));
    let second = Scene::permutation(three_sources(&p), (0, 1, 2));
    let mut pres = Presentation::new(vec![(first, false), (second, true)]);
    for _ in 0..5 {
        pres.next_view();
    }
    assert_eq!(pres.current_view(), 5);
    // The target offers three views, so the carried index is clamped
    // to its last view.
    pres.next_scene();
    assert_eq!(pres.current_view(), 2);
}

#[test]
fn no_carryover_without_the_flag() {
    let p = Processor::new(2, 2);
    let first = Scene::channels(three_sources(&p));
    let second = Scene::permutation(three_sources(&p), (0, 1, 2));
    let mut pres = Presentation::new(vec![(first, false), (second, false)]);
    pres.next_view();
    pres.next_scene();
    assert_eq!(pres.current_view(), 0);
}

#[test]
fn carryover_on_the_way_back() {
    let p = Processor::new(2, 2);
    let first = Scene::channels(three_sources(&p));
    let second = Scene::channels(three_sources(&p));
    let mut pres = Presentation::new(vec![(first, true), (second, false)]);
    pres.next_scene();
    pres.next_view();
    pres.next_view();
    pres.next_view();
    assert_eq!(pres.current_view(), 3);
    pres.previous_scene();
    assert_eq!(pres.i, 0);
    assert_eq!(pres.current_view(), 3);
}

#[test]
fn presentation_stops_at_both_ends() {
    let p = Processor::new(2, 2);
    let first = Scene::plain(Image::monochrome(&p, 1, 2, 3));
    let second = Scene::plain(Image::monochrome(&p, 4, 5, 6));
    let mut pres = Presentation::new(vec![(first, false), (second, false)]);
    pres.previous_scene();
    assert_eq!(pres.i, 0);
    pres.next_scene();
    assert_eq!(pres.i, 1);
    pres.next_scene();
    assert_eq!(pres.i, 1);
    pres.previous_scene();
    assert_eq!(pres.i, 0);
}

#[test]
fn plain_scene_shows_its_image() {
    let mut p = Processor::new(2, 2);
    let mut s = Scene::plain(Image::monochrome(&p, 7, 8, 9));
    assert_eq!(s.n_views(), 1);
    assert_eq!(s.current_view(), 0);
    s.toggle();
    let img = s.image(&mut p);
    for px in img.texture.data.iter() {
        assert_eq!((px.r, px.g, px.b), (7, 8, 9));
    }
}

#[test]
fn permutation_scene_walks_and_permutes() {
    let mut p = Processor::new(2, 2);
    let mut s = Scene::permutation(three_sources(&p), (2, 1, 0));
    assert_eq!(s.n_views(), 3);
    let img = s.image(&mut p);
    for px in img.texture.data.iter() {
        assert_eq!((px.r, px.g, px.b), (12, 11, 10));
    }
    s.next_view();
    let img = s.image(&mut p);
    for px in img.texture.data.iter() {
        assert_eq!((px.r, px.g, px.b), (22, 21, 20));
    }
}

#[test]
fn presentation_image_follows_the_active_scene() {
    let mut p = Processor::new(2, 2);
    let first = Scene::plain(Image::monochrome(&p, 1, 2, 3));
    let second = Scene::plain(Image::monochrome(&p, 4, 5, 6));
    let mut pres = Presentation::new(vec![(first, false), (second, false)]);
    let img = pres.image(&mut p);
    assert_eq!(img.texture.data[0].r, 1);
    pres.next_scene();
    let img = pres.image(&mut p);
    assert_eq!(img.texture.data[0].r, 4);
}

#[test]
fn chroma_luma_mix_of_one_image_is_near_identity() {
    let mut p = Processor::new(2, 2);
    let a = Image::monochrome(&p, 500_000, 200_000, 700_000);
    let out = mix_chroma_luma(&mut p, &a, &a);
    for px in out.texture.data.iter() {
        assert!(px.r.abs_diff(500_000) <= 10);
        assert!(px.g.abs_diff(200_000) <= 10);
        assert!(px.b.abs_diff(700_000) <= 10);
    }
}

#[test]
fn luma_random_mixes_yields_four_full_images() {
    let mut p = Processor::new(2, 3);
    let a = Image::monochrome(&p, 500_000, 200_000, 700_000);
    let outs = luma_random_mixes(&mut p, &a);
    assert_eq!(outs.len(), 4);
    for img in outs.iter() {
        assert_eq!(img.texture.data.len(), 6);
    }
}

#[test]
fn pink_scale_keeps_only_scaled_blue() {
    let mut p = Processor::new(2, 2);
    let a = Image::monochrome(&p, 500_000, 200_000, 700_000);
    let out = pink_scale(&mut p, &a);
    for px in out.texture.data.iter() {
        assert_eq!((px.r, px.g, px.b), (0, 0, 305_184));
    }
}
