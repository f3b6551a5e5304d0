//! The wallpaper: scenes, pictures and what is kept of them.

use os101::wallpaper::{
    clear_picture, from_picture, generate_scene, gradient, hash32, invalidate, isqrt, paint,
    picture_path, selftest, set_picture, Image, Stop, Wallpaper,
};

fn flat(w: usize, h: usize, c: u32) -> Image {
    Image { width: w, height: h, pixels: vec![c; w * h] }
}

#[test]
fn roots_are_rounded_down() {
    for n in [0u32, 1, 2, 3, 4, 15, 16, 17, 1_000_000, 2_147_483_647, 4_294_967_294] {
        let r = isqrt(n) as u64;
        assert!(r * r <= n as u64 && (r + 1) * (r + 1) > n as u64);
    }
}

#[test]
fn gradients_pass_through_their_stops() {
    let g = vec![Stop { at: 0, color: 0 }, Stop { at: 100, color: 0x646464 }];
    assert_eq!(gradient(&g, 0), 0);
    assert_eq!(gradient(&g, 100), 0x646464);
    assert_eq!(gradient(&g, 200), 0x646464);
    assert_eq!(gradient(&g, 50), 0x313131);
    assert_eq!(gradient(&vec![], 3), 0);
}

#[test]
fn hashes_are_fixed() {
    assert_eq!(hash32(0), 0);
    assert_ne!(hash32(1), hash32(2));
}

#[test]
fn pictures_cover_the_screen() {
    let px = from_picture(&flat(4, 4, 0x3366cc), 64, 32, false);
    assert_eq!(px.len(), 64 * 32);
    assert_eq!(px[16 * 64 + 32], 0x3366cc);
    assert_eq!(px[0], 0x274f9f);
    let none = from_picture(&Image { width: 8, height: 8, pixels: vec![1, 2] }, 8, 8, false);
    assert!(none.iter().all(|c| *c == 0));
    // Left half black, right half white: the middle of the screen is the seam.
    let mut p = flat(16, 16, 0);
    for y in 0..16 {
        for x in 8..16 {
            p.pixels[y * 16 + x] = 0xffffff;
        }
    }
    let px = from_picture(&p, 8, 16, false);
    assert!(px[8 * 8 + 1] < px[8 * 8 + 6]);
}

#[test]
fn scenes_differ_by_theme() {
    let day = generate_scene(80, 60, false);
    let night = generate_scene(80, 60, true);
    assert_eq!((day.len(), night.len()), (4_800, 4_800));
    assert_ne!(day, night);
    assert_eq!(generate_scene(80, 60, true), night);
}

#[test]
fn what_was_produced_is_kept_until_something_changes() {
    let mut w = Wallpaper::new();
    assert!(!paint(&mut w, 0, 5, true));
    assert!(w.cache.is_none());
    assert!(paint(&mut w, 20, 10, true));
    assert_eq!(w.cache.as_ref().unwrap().pixels, generate_scene(20, 10, true));
    set_picture(&mut w, "/disk/a.png", flat(2, 2, 0x102030));
    assert!(w.cache.is_none());
    assert_eq!(picture_path(&w), Some("/disk/a.png".to_string()));
    paint(&mut w, 20, 10, false);
    assert_eq!(w.cache.as_ref().unwrap().pixels[5 * 20 + 10], 0x102030);
    clear_picture(&mut w);
    assert_eq!(picture_path(&w), None);
    paint(&mut w, 20, 10, true);
    invalidate(&mut w);
    assert!(w.cache.is_none());
}

#[test]
fn the_wallpaper_checks_itself() {
    let mut w = Wallpaper::new();
    set_picture(&mut w, "/p", flat(1, 1, 5));
    let r = selftest(&mut w);
    assert_eq!((r.passed, r.failed), (18, 0));
    assert!(r.failures.is_empty());
    assert_eq!(picture_path(&w), Some("/p".to_string()));
}

#[test]
fn the_largest_number_has_a_root() {
    assert_eq!(isqrt(u32::MAX), 65_535);
    assert_eq!(isqrt(65_535 * 65_535), 65_535);
    assert_eq!(isqrt(65_535 * 65_535 - 1), 65_534);
}

#[test]
fn the_halo_keeps_to_the_moon_on_a_low_screen() {
    let night = generate_scene(80, 60, true);
    let dusk = generate_scene(80, 60, false);
    assert_eq!(night[5 * 80 + 40], 0x03060d);
    assert_eq!(dusk[5 * 80 + 40], 0x0d1029);
    // The disc is still there, and so is a halo close to it.
    assert_eq!(night[12 * 80 + 62], 0xf4f7e8);
    assert!(night[12 * 80 + 52] > night[12 * 80 + 40]);
}
