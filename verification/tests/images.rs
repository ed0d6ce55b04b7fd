use kirie::images::{
    atlas_animates, crop, fit_within, nv12_planes, padded_indices, pixels_needed, puppet_indices,
    texture_path, Indices, Region,
};

#[test]
fn a_target_inside_the_limit_is_untouched() {
    assert_eq!(fit_within(1920, 1080, 8192), (1920, 1080));
}

#[test]
fn a_target_over_the_limit_keeps_its_shape() {
    assert_eq!(fit_within(8194, 4097, 8192), (8192, 4096));
}

#[test]
fn a_zero_side_still_makes_a_texture() {
    assert_eq!(fit_within(0, 0, 8192), (1, 1));
}

#[test]
fn a_tall_target_is_clamped_on_its_own_axis() {
    let (width, height) = fit_within(4000, 20000, 8192);
    assert_eq!(height, 8192);
    assert!(width < 4000, "{width}");
}

fn shrunk_by_doubles(width: u32, height: u32, ceiling: u32) -> (u32, u32) {
    let width = width.max(1);
    let height = height.max(1);
    let ceiling = ceiling.max(1);
    if width <= ceiling && height <= ceiling {
        return (width, height);
    }
    let longest = width.max(height);
    let shrink = f64::from(ceiling) / f64::from(longest);
    let scaled = |side: u32| ((f64::from(side) * shrink).floor() as u32).clamp(1, ceiling);
    (scaled(width), scaled(height))
}

#[test]
fn shrinking_is_what_doubles_make_of_it() {
    let mut seed: u64 = 0x1234_5678_9abc_def1;
    let mut next = || {
        seed ^= seed << 13;
        seed ^= seed >> 7;
        seed ^= seed << 17;
        seed
    };
    for _ in 0..20_000 {
        let bits = (next() % 32) as u32;
        let w = (next() as u32) >> bits;
        let h = (next() as u32) >> ((next() % 32) as u32);
        let c = (next() as u32) >> ((next() % 32) as u32);
        assert_eq!(fit_within(w, h, c), shrunk_by_doubles(w, h, c), "{w}x{h} in {c}");
    }
    for (w, h, c) in [
        (u32::MAX, u32::MAX, u32::MAX - 1),
        (u32::MAX, 1, 1),
        (49, 98, 49),
        (3, 1, 2),
        (u32::MAX, 3, 0),
    ] {
        assert_eq!(fit_within(w, h, c), shrunk_by_doubles(w, h, c));
    }
}

#[test]
fn an_even_index_run_is_left_alone() {
    let indices = [0u16, 1, 2, 3];
    assert!(matches!(padded_indices(&indices), Indices::Borrowed(_)));
}

#[test]
fn an_odd_index_run_is_padded_to_a_whole_word() {
    let padded = padded_indices(&[0u16, 1, 2]);
    assert_eq!(padded.len(), 4);
    assert_eq!(&padded.as_slice()[..3], &[0, 1, 2]);
    assert_eq!(padded.as_slice()[3], 2, "the pad repeats a vertex, drawing nothing new");
}

#[test]
fn an_empty_run_stays_empty() {
    assert!(padded_indices(&[]).is_empty());
}

#[test]
fn a_puppet_is_padded_with_its_first_vertex() {
    assert_eq!(puppet_indices(&[4, 5, 6]), [4, 5, 6, 0]);
    assert_eq!(puppet_indices(&[4, 5]), [4, 5]);
    assert!(puppet_indices(&[]).is_empty());
}

#[test]
fn a_region_is_cut_out_row_by_row() {
    let mut pixels = Vec::new();
    for p in 0u8..12 {
        pixels.extend_from_slice(&[p, p, p, 255]);
    }
    let region = Region { x: 1, y: 1, width: 2, height: 2 };
    let cut = crop(&pixels, 4, 3, region).expect("inside the page");
    let firsts: Vec<u8> = cut.iter().step_by(4).copied().collect();
    assert_eq!(firsts, [5, 6, 9, 10]);
    assert_eq!(cut.len(), 16);
    for outside in [
        Region { x: 3, y: 0, width: 2, height: 1 },
        Region { x: -1, y: 0, width: 1, height: 1 },
        Region { x: 0, y: 2, width: 1, height: 2 },
        Region { x: i64::MAX, y: 0, width: 1, height: 1 },
    ] {
        assert!(crop(&pixels, 4, 3, outside).is_none());
    }
}

#[test]
fn spritesheets_animate_without_page_streaming() {
    assert_eq!(atlas_animates(&vec![0, 0], true), Some(false));
}

#[test]
fn uniform_multi_page_gifs_stream_pages() {
    assert_eq!(atlas_animates(&vec![0, 1], true), Some(true));
}

#[test]
fn static_and_malformed_content_never_animates() {
    assert_eq!(atlas_animates(&vec![0], false), None);
    assert_eq!(atlas_animates(&vec![0, 0], false), None);
}

#[test]
fn pages_of_different_sizes_still_animate() {
    assert_eq!(atlas_animates(&vec![0, 1], true), Some(true));
}

#[test]
fn textures_have_paths_and_sizes() {
    assert_eq!(texture_path("util/white"), "materials/util/white.tex");
    assert_eq!(pixels_needed(3, 2), 24);
    assert_eq!(pixels_needed(0, 5), 20);
    assert_eq!(nv12_planes(4, 2, 12), Some((8, 4)));
    assert_eq!(nv12_planes(4, 2, 11), None);
    assert_eq!(nv12_planes(3, 3, 12), Some((9, 3)));
}

#[test]
fn a_target_over_the_limit_is_off_its_share_by_one_at_most() {
    for (w, h, c) in [(8194u32, 4097u32, 8192u32), (20000, 3, 8192), (u32::MAX, u32::MAX - 1, 12345), (7, 5, 3), (u32::MAX, 1, u32::MAX - 1)] {
        let long = u64::from(w.max(h));
        let (fw, fh) = fit_within(w, h, c);
        for (side, got) in [(w, fw), (h, fh)] {
            let share = u64::from(side) * u64::from(c) / long;
            assert!(share.abs_diff(u64::from(got)) <= 1, "{side} of {long} within {c} is {got}");
        }
    }
}
