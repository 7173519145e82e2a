use appreels::style::{canvas_size, default_seed, palette, range_u32, splitmix64, style_from_seed};

const NAMES: [&str; 5] = [
    "dusk-berry",
    "aurora-teal",
    "graphite-rose",
    "indigo-copper",
    "forest-slate",
];

#[test]
fn style_from_seed_is_deterministic() {
    let a = style_from_seed(12345);
    let b = style_from_seed(12345);
    assert_eq!(a.palette_name, b.palette_name);
    assert_eq!(a.padding, b.padding);
    assert_eq!(a.start, b.start);
}

#[test]
fn style_uses_a_known_palette() {
    let style = style_from_seed(1);
    assert!((0..5u64).any(|i| palette(i).name == style.palette_name));
}

#[test]
fn style_measurements_stay_in_their_ranges() {
    for seed in (0..2000u64).chain([u64::MAX, default_seed()]) {
        let s = style_from_seed(seed);
        assert!(NAMES.contains(&s.palette_name.as_str()));
        assert!((56..=88).contains(&s.padding));
        assert!((14..=22).contains(&s.corner_radius));
        assert!((18..=30).contains(&s.shadow_blur));
        assert!((14..=28).contains(&s.shadow_offset_y));
        assert_eq!(s.seed, seed);
    }
}

#[test]
fn splitmix64_matches_the_reference_sequence() {
    // splitmix64 seeded with 0 starts 0xe220a8397b1dcdaf, 0x6e789e6aa1b965f4.
    let mut state = 0u64;
    assert_eq!(splitmix64(&mut state), 0xe220a8397b1dcdaf);
    assert_eq!(splitmix64(&mut state), 0x6e789e6aa1b965f4);
    assert_eq!(state, 0x9E3779B97F4A7C15u64.wrapping_mul(2));
}

#[test]
fn range_u32_draws_within_bounds_and_advances_once() {
    let mut state = 7u64;
    let v = range_u32(&mut state, 3, 3);
    assert_eq!(v, 3);
    assert_eq!(state, 7u64.wrapping_add(0x9E3779B97F4A7C15));
    let mut state = 99u64;
    for _ in 0..100 {
        let v = range_u32(&mut state, 10, 12);
        assert!((10..=12).contains(&v));
    }
}

#[test]
fn palette_colors_match_the_appshots_palettes() {
    let p = palette(3);
    assert_eq!(p.name, "indigo-copper");
    assert_eq!((p.start, p.end, p.accent), ([31, 45, 92], [190, 104, 62], [240, 167, 92]));
    assert_eq!(palette(0).accent, [118, 79, 178]);
}

#[test]
fn compose_frame_pads_by_style() {
    let style = style_from_seed(42);
    let (w, h) = canvas_size(100, 60, &style);
    assert_eq!(w, 100 + style.padding * 2);
    assert_eq!(h, 60 + style.padding * 2 + style.shadow_offset_y as u32);
}

#[test]
fn default_seed_spells_appreel() {
    assert_eq!(default_seed().to_be_bytes()[1..], *b"appreel");
}
