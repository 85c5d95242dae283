//! The render driver's decisions: which colour each pixel shows, and the
//! image file that results.
//!
//! Rays are cast one per pixel, row by row. A ray that hits the sphere
//! yields a shaded colour, clamped to display range before it is shown. A
//! ray that misses shows the colour of the most recent hit (black before the
//! first hit): the accumulator is not reset on a miss.
use vstd::prelude::*;
use crate::color::{black_spec, clamp, Color, Rgb};
use crate::ppm::{encode_ppm, ppm_bytes};

verus! {

/// The colour a pixel shows, given the colour shown by the pixel before it
/// and what its own ray produced: the clamped shade on a hit, the previous
/// colour on a miss.
pub open spec fn next_color_spec(prev: Rgb, shade: Option<Color>) -> Rgb {
    match shade {
        Some(c) => c.clamped().to_rgb_spec(),
        None => prev,
    }
}

/// The colour shown last in `shown`, black when nothing has been shown yet.
pub open spec fn last_shown(shown: Seq<Rgb>) -> Rgb {
    if shown.len() == 0 {
        black_spec()
    } else {
        shown.last()
    }
}

/// The colours shown for the ray results `shades`, in the same order.
pub open spec fn shown_colors(shades: Seq<Option<Color>>) -> Seq<Rgb>
    decreases shades.len(),
{
    if shades.len() == 0 {
        seq![]
    } else {
        let before = shown_colors(shades.drop_last());
        before.push(next_color_spec(last_shown(before), shades.last()))
    }
}

/// The image file for a `width` by `height` image whose ray results are
/// `shades`, row by row; `None` when their number is not `width * height`.
pub open spec fn render_spec(width: nat, height: nat, shades: Seq<Option<Color>>) -> Option<
    Seq<u8>,
> {
    if shades.len() == width * height {
        Some(ppm_bytes(width, height, shown_colors(shades)))
    } else {
        None
    }
}

/// The colour of the next pixel: the clamped shade on a hit, `prev` on a
/// miss.
pub fn next_color(prev: Rgb, shade: Option<Color>) -> (r: Rgb)
    ensures
        r == next_color_spec(prev, shade),
{
    match shade {
        Some(c) => {
            let mut col = c;
            clamp(&mut col);
            col.to_rgb()
        },
        None => prev,
    }
}

/// The colours shown for the ray results `shades`, one per pixel.
pub fn shade_pixels(shades: &Vec<Option<Color>>) -> (r: Vec<Rgb>)
    ensures
        r@ == shown_colors(shades@),
{
    let mut shown: Vec<Rgb> = Vec::new();
    let mut current = Rgb::black();
    let mut k: usize = 0;
    while k < shades.len()
        invariant
            0 <= k <= shades.len(),
            shown@ == shown_colors(shades@.subrange(0, k as int)),
            current == last_shown(shown@),
        decreases shades.len() - k,
    {
        current = next_color(current, shades[k]);
        shown.push(current);
        assert(shades@.subrange(0, k + 1).drop_last() =~= shades@.subrange(0, k as int));
        k = k + 1;
    }
    assert(shades@.subrange(0, k as int) =~= shades@);
    shown
}

/// Renders the image file of a `width` by `height` image from the ray
/// result of each pixel, row by row, top to bottom, each row left to right.
/// `None` exactly when the number of results is not `width * height`.
pub fn render(width: u32, height: u32, shades: &Vec<Option<Color>>) -> (r: Option<Vec<u8>>)
    ensures
        r is Some <==> shades.len() == width * height,
        r matches Some(bytes) ==> render_spec(width as nat, height as nat, shades@) == Some(
            bytes@,
        ),
{
    let shown = shade_pixels(shades);
    proof {
        lemma_shown_len(shades@);
    }
    encode_ppm(width, height, &shown)
}

/// As many colours are shown as there are ray results.
pub proof fn lemma_shown_len(shades: Seq<Option<Color>>)
    ensures
        shown_colors(shades).len() == shades.len(),
    decreases shades.len(),
{
    if shades.len() > 0 {
        lemma_shown_len(shades.drop_last());
    }
}

/// The pixel at index `k` shows the clamped shade of its ray where that ray
/// hit; where it missed, it repeats the pixel before it, or is black when it
/// is the first.
pub proof fn pixel_shows_last_hit(shades: Seq<Option<Color>>, k: int)
    requires
        0 <= k < shades.len(),
    ensures
        shown_colors(shades).len() == shades.len(),
        shades[k] matches Some(c) ==> shown_colors(shades)[k] == c.clamped().to_rgb_spec(),
        shades[k] is None && k == 0 ==> shown_colors(shades)[k] == black_spec(),
        shades[k] is None && k > 0 ==> shown_colors(shades)[k] == shown_colors(shades)[k - 1],
    decreases shades.len(),
{
    lemma_shown_len(shades);
    lemma_shown_len(shades.drop_last());
    if k < shades.len() - 1 {
        pixel_shows_last_hit(shades.drop_last(), k);
        if k > 0 {
            pixel_shows_last_hit(shades.drop_last(), k - 1);
        }
        assert(shades.drop_last()[k] == shades[k]);
    }
}

/// Rendering depends on its inputs alone: the same size and ray results
/// give the same bytes.
pub proof fn render_is_deterministic(
    width: nat,
    height: nat,
    shades1: Seq<Option<Color>>,
    shades2: Seq<Option<Color>>,
)
    requires
        shades1 == shades2,
    ensures
        render_spec(width, height, shades1) == render_spec(width, height, shades2),
{
}

} // verus!
