//! The appshots presentation style: a palette and frame measurements drawn
//! deterministically from a seed.

use vstd::prelude::*;

verus! {

/// The look a frame is given: backdrop palette, padding, rounded corners and
/// drop shadow. The shadow blur is a whole number of pixels.
#[derive(Debug, Clone)]
pub struct PresentationStyle {
    pub seed: u64,
    pub palette_name: String,
    pub start: [u8; 3],
    pub end: [u8; 3],
    pub accent: [u8; 3],
    pub padding: u32,
    pub corner_radius: u32,
    pub shadow_blur: u32,
    pub shadow_offset_y: i32,
}

/// A named palette: backdrop start and end colors and an accent color.
pub struct Palette {
    pub name: &'static str,
    pub start: [u8; 3],
    pub end: [u8; 3],
    pub accent: [u8; 3],
}

/// How many palettes there are.
pub const PALETTE_COUNT: u64 = 5;

/// The name of palette `index`.
pub open spec fn palette_name(index: int) -> Seq<char> {
    if index == 0 {
        "dusk-berry"@
    } else if index == 1 {
        "aurora-teal"@
    } else if index == 2 {
        "graphite-rose"@
    } else if index == 3 {
        "indigo-copper"@
    } else {
        "forest-slate"@
    }
}

/// The start, end and accent colors of palette `index`.
pub open spec fn palette_colors(index: int) -> ([u8; 3], [u8; 3], [u8; 3]) {
    if index == 0 {
        ([34, 40, 78], [178, 48, 104], [118, 79, 178])
    } else if index == 1 {
        ([15, 77, 87], [62, 148, 126], [165, 212, 141])
    } else if index == 2 {
        ([38, 42, 49], [158, 64, 91], [222, 134, 113])
    } else if index == 3 {
        ([31, 45, 92], [190, 104, 62], [240, 167, 92])
    } else {
        ([23, 65, 55], [73, 88, 103], [129, 160, 126])
    }
}

/// Palette `index` of the five.
pub fn palette(index: u64) -> (p: Palette)
    requires
        index < PALETTE_COUNT,
    ensures
        p.name@ == palette_name(index as int),
        (p.start, p.end, p.accent) == palette_colors(index as int),
{
    if index == 0 {
        Palette {
            name: "dusk-berry",
            start: [34, 40, 78],
            end: [178, 48, 104],
            accent: [118, 79, 178],
        }
    } else if index == 1 {
        Palette {
            name: "aurora-teal",
            start: [15, 77, 87],
            end: [62, 148, 126],
            accent: [165, 212, 141],
        }
    } else if index == 2 {
        Palette {
            name: "graphite-rose",
            start: [38, 42, 49],
            end: [158, 64, 91],
            accent: [222, 134, 113],
        }
    } else if index == 3 {
        Palette {
            name: "indigo-copper",
            start: [31, 45, 92],
            end: [190, 104, 62],
            accent: [240, 167, 92],
        }
    } else {
        Palette {
            name: "forest-slate",
            start: [23, 65, 55],
            end: [73, 88, 103],
            accent: [129, 160, 126],
        }
    }
}

/// The splitmix64 increment.
pub open spec fn splitmix_step(state: u64) -> u64 {
    state.wrapping_add(0x9E3779B97F4A7C15)
}

/// The splitmix64 output for an advanced state.
pub open spec fn splitmix_mix(z: u64) -> u64 {
    let z1 = (z ^ (z >> 30u64)).wrapping_mul(0xBF58476D1CE4E5B9);
    let z2 = (z1 ^ (z1 >> 27u64)).wrapping_mul(0x94D049BB133111EB);
    z2 ^ (z2 >> 31u64)
}

/// The state after `k` steps from `seed`.
pub open spec fn splitmix_state(seed: u64, k: nat) -> u64
    decreases k,
{
    if k == 0 {
        seed
    } else {
        splitmix_step(splitmix_state(seed, (k - 1) as nat))
    }
}

/// The `k`-th output (from 1) of the generator seeded with `seed`.
pub open spec fn splitmix_output(seed: u64, k: nat) -> u64 {
    splitmix_mix(splitmix_state(seed, k))
}

/// Deterministic splitmix64, so no random source is needed: advances the
/// state and returns the next output.
pub fn splitmix64(state: &mut u64) -> (r: u64)
    ensures
        *final(state) == splitmix_step(*old(state)),
        r == splitmix_mix(*final(state)),
{
    *state = state.wrapping_add(0x9E3779B97F4A7C15);
    let mut z = *state;
    z = (z ^ (z >> 30)).wrapping_mul(0xBF58476D1CE4E5B9);
    z = (z ^ (z >> 27)).wrapping_mul(0x94D049BB133111EB);
    z ^ (z >> 31)
}

/// A value in `lo..=hi` from the next generator output.
pub fn range_u32(state: &mut u64, lo: u32, hi: u32) -> (r: u32)
    requires
        lo <= hi,
        hi - lo < u32::MAX,
    ensures
        *final(state) == splitmix_step(*old(state)),
        r == lo + splitmix_mix(*final(state)) % ((hi - lo + 1) as u64),
        lo <= r <= hi,
{
    let span = (hi - lo + 1) as u64;
    let v = splitmix64(state) % span;
    lo + v as u32
}

/// The palette index a seed picks.
pub open spec fn style_palette_index(seed: u64) -> int {
    (splitmix_output(seed, 1) % 5) as int
}

/// `style` is the style that `seed` draws: the palette picked by the first
/// generator output, then padding, corner radius, shadow blur and shadow
/// offset from the next four.
pub open spec fn style_for(style: PresentationStyle, seed: u64) -> bool {
    &&& style.seed == seed
    &&& style.palette_name@ == palette_name(style_palette_index(seed))
    &&& (style.start, style.end, style.accent) == palette_colors(style_palette_index(seed))
    &&& style.padding == 56 + splitmix_output(seed, 2) % 33
    &&& style.corner_radius == 14 + splitmix_output(seed, 3) % 9
    &&& style.shadow_blur == 18 + splitmix_output(seed, 4) % 13
    &&& style.shadow_offset_y == 14 + splitmix_output(seed, 5) % 15
}

/// Draws a presentation style from `seed`. The palette is one of the five,
/// the padding is 56 to 88 pixels, the corner radius 14 to 22, the shadow
/// blur 18 to 30 and the shadow offset 14 to 28.
pub fn style_from_seed(seed: u64) -> (style: PresentationStyle)
    ensures
        style_for(style, seed),
        0 <= style_palette_index(seed) < 5,
        56 <= style.padding <= 88,
        14 <= style.corner_radius <= 22,
        18 <= style.shadow_blur <= 30,
        14 <= style.shadow_offset_y <= 28,
{
    let mut state = seed;
    let idx = splitmix64(&mut state) % PALETTE_COUNT;
    let p = palette(idx);
    let padding = range_u32(&mut state, 56, 88);
    let corner_radius = range_u32(&mut state, 14, 22);
    let shadow_blur = range_u32(&mut state, 18, 30);
    let shadow_offset_y = range_u32(&mut state, 14, 28) as i32;
    proof {
        reveal_with_fuel(splitmix_state, 6);
    }
    PresentationStyle {
        seed,
        palette_name: String::from_str(p.name),
        start: p.start,
        end: p.end,
        accent: p.accent,
        padding,
        corner_radius,
        shadow_blur,
        shadow_offset_y,
    }
}

/// A seed determines its style: any two styles drawn from the same seed are
/// the same.
pub proof fn law_style_determined_by_seed(a: PresentationStyle, b: PresentationStyle, seed: u64)
    requires
        style_for(a, seed),
        style_for(b, seed),
    ensures
        a.seed == b.seed,
        a.palette_name@ == b.palette_name@,
        a.start == b.start && a.end == b.end && a.accent == b.accent,
        a.padding == b.padding,
        a.corner_radius == b.corner_radius,
        a.shadow_blur == b.shadow_blur,
        a.shadow_offset_y == b.shadow_offset_y,
{
}

/// No two of the five palettes share a name.
pub proof fn lemma_palette_names_distinct(i: int, j: int)
    requires
        0 <= i < 5,
        0 <= j < 5,
        palette_name(i) == palette_name(j),
    ensures
        i == j,
{
    reveal_strlit("dusk-berry");
    reveal_strlit("aurora-teal");
    reveal_strlit("graphite-rose");
    reveal_strlit("indigo-copper");
    reveal_strlit("forest-slate");
    assert("dusk-berry"@.len() == 10);
    assert("aurora-teal"@.len() == 11);
    assert("graphite-rose"@.len() == 13 && "graphite-rose"@[0] == 'g');
    assert("indigo-copper"@.len() == 13 && "indigo-copper"@[0] == 'i');
    assert("forest-slate"@.len() == 12);
    if i != j {
        if palette_name(i).len() == palette_name(j).len() {
            assert(palette_name(i)[0] != palette_name(j)[0]);
        }
    }
}

/// A style's colors are those of the palette it is named after: it carries
/// the name of one of the five palettes, and its start, end and accent
/// colors are that palette's.
pub proof fn law_style_colors_match_its_palette(style: PresentationStyle, seed: u64)
    requires
        style_for(style, seed),
    ensures
        exists|i: int| 0 <= i < 5 && palette_name(i) == style.palette_name@,
        forall|i: int|
            0 <= i < 5 && #[trigger] palette_name(i) == style.palette_name@ ==> (
            style.start,
            style.end,
            style.accent,
        ) == palette_colors(i),
{
    let k = style_palette_index(seed);
    assert(0 <= k < 5);
    assert(palette_name(k) == style.palette_name@);
    assert forall|i: int|
        0 <= i < 5 && #[trigger] palette_name(i) == style.palette_name@ implies (
        style.start,
        style.end,
        style.accent,
    ) == palette_colors(i) by {
        lemma_palette_names_distinct(i, k);
    }
}

/// The seed `render` uses when none is given, so that rendering without a
/// seed stays deterministic: the bytes of "appreel".
pub fn default_seed() -> (seed: u64)
    ensures
        seed == 0x617070_7265656c,
{
    0x617070_7265656c
}

/// The size of the canvas a `width`×`height` frame is composed onto: the
/// padding on every side, plus the shadow offset below.
pub fn canvas_size(width: u32, height: u32, style: &PresentationStyle) -> (size: (u32, u32))
    requires
        style.shadow_offset_y >= 0,
        width + 2 * style.padding <= u32::MAX,
        height + 2 * style.padding + style.shadow_offset_y <= u32::MAX,
    ensures
        size.0 == width + 2 * style.padding,
        size.1 == height + 2 * style.padding + style.shadow_offset_y,
{
    (width + style.padding * 2, height + style.padding * 2 + style.shadow_offset_y as u32)
}

} // verus!
