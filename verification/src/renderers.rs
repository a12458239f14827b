//! The render engine: four interchangeable pixel-packing strategies that turn
//! an RGB raster into colored terminal text.

use vstd::prelude::*;

use crate::ansi::{
    push_bg_escape, push_fg_escape, push_reset_escape, spec_bg_escape, spec_fg_escape,
    spec_reset_escape,
};
use crate::raster::Raster;
use crate::tui::Area;

verus! {

/// The nominal character-cell aspect ratio (cell height over cell width),
/// kept as an exact ratio of two integers.
#[derive(Clone, Copy, Debug, PartialEq, Eq, Structural)]
pub struct Aspect {
    pub num: u32,
    pub den: u32,
}

impl Aspect {
    pub open spec fn wf(&self) -> bool {
        self.num >= 1 && self.den >= 1
    }
}

/// The four pixel-packing strategies, cyclically ordered.
#[derive(Clone, Copy, Debug, PartialEq, Eq, Structural)]
pub enum Renderer {
    PixelChar,
    HalfChar,
    Quarters,
    Braille,
}

/// The successor of a mode in the fixed cycle.
pub open spec fn spec_next_mode(m: Renderer) -> Renderer {
    match m {
        Renderer::PixelChar => Renderer::HalfChar,
        Renderer::HalfChar => Renderer::Quarters,
        Renderer::Quarters => Renderer::Braille,
        Renderer::Braille => Renderer::PixelChar,
    }
}

/// The predecessor of a mode in the fixed cycle.
pub open spec fn spec_last_mode(m: Renderer) -> Renderer {
    match m {
        Renderer::PixelChar => Renderer::Braille,
        Renderer::HalfChar => Renderer::PixelChar,
        Renderer::Quarters => Renderer::HalfChar,
        Renderer::Braille => Renderer::Quarters,
    }
}

/// The `(sx, sy)` block of image samples one terminal cell encodes.
pub open spec fn spec_subpixels(m: Renderer) -> (u32, u32) {
    match m {
        Renderer::PixelChar => (1u32, 1u32),
        Renderer::HalfChar => (1u32, 2u32),
        Renderer::Quarters => (2u32, 2u32),
        Renderer::Braille => (2u32, 4u32),
    }
}

/// The display name of a mode.
pub open spec fn spec_mode_name(m: Renderer) -> Seq<char> {
    match m {
        Renderer::PixelChar => "Full Chars"@,
        Renderer::HalfChar => "Half Chars"@,
        Renderer::Quarters => "Quarters"@,
        Renderer::Braille => "Braille"@,
    }
}

impl Renderer {
    pub fn next_mode(&self) -> (r: Self)
        ensures
            r == spec_next_mode(*self),
    {
        match self {
            Self::PixelChar => Self::HalfChar,
            Self::HalfChar => Self::Quarters,
            Self::Quarters => Self::Braille,
            Self::Braille => Self::PixelChar,
        }
    }

    pub fn last_mode(&self) -> (r: Self)
        ensures
            r == spec_last_mode(*self),
    {
        match self {
            Self::PixelChar => Self::Braille,
            Self::HalfChar => Self::PixelChar,
            Self::Quarters => Self::HalfChar,
            Self::Braille => Self::Quarters,
        }
    }

    pub fn subpixels(&self) -> (r: (u32, u32))
        ensures
            r == spec_subpixels(*self),
    {
        match self {
            Self::PixelChar => (1, 1),
            Self::HalfChar => (1, 2),
            Self::Quarters => (2, 2),
            Self::Braille => (2, 4),
        }
    }

    /// The mode's display name.
    pub fn name(&self) -> (r: String)
        ensures
            r@ == spec_mode_name(*self),
    {
        match self {
            Renderer::PixelChar => String::from_str("Full Chars"),
            Renderer::HalfChar => String::from_str("Half Chars"),
            Renderer::Quarters => String::from_str("Quarters"),
            Renderer::Braille => String::from_str("Braille"),
        }
    }

    /// Fits a raster of `img_dims` into `bounds`, returning the sample-grid
    /// dimensions and the centering gap in cells on each axis.
    #[verifier::spinoff_prover]
    pub fn calc_dims_fixed(&self, img_dims: (u32, u32), bounds: Area, char_height: Aspect) -> (r: (
        Area,
        u32,
        u32,
    ))
        requires
            img_dims.0 >= 1,
            img_dims.1 >= 1,
            1 <= bounds.width <= 0xFFFF,
            1 <= bounds.height <= 0xFFFF,
            char_height.wf(),
        ensures
            ({
                let (w, h, gx, gy) = spec_calc_dims_fixed(
                    *self,
                    img_dims.0 as int,
                    img_dims.1 as int,
                    bounds,
                    char_height,
                );
                r.0.width == w && r.0.height == h && r.1 == gx && r.2 == gy
            }),
    {
        let (sxu, syu) = self.subpixels();
        let sx = sxu as u128;
        let sy = syu as u128;
        proof {
            let ani = (char_height.num as int) * (sx as int);
            let adi = (char_height.den as int) * (sy as int);
            let iwi = img_dims.0 as int;
            let ihi = img_dims.1 as int;
            let bwi = bounds.width as int;
            let bhi = bounds.height as int;
            lemma_mul_bound(char_height.num as int, 0xFFFFFFFF, sx as int, 4);
            lemma_mul_bound(char_height.den as int, 0xFFFFFFFF, sy as int, 4);
            lemma_mul_bound(iwi, 0xFFFFFFFF, ani, 0x3FFFFFFFC);
            lemma_mul_bound(iwi * ani, 0xFFFFFFFFint * 0x3FFFFFFFC, bhi, 0xFFFF);
            lemma_mul_bound(bwi, 0xFFFF, ihi, 0xFFFFFFFF);
            lemma_mul_bound(bwi * ihi, 0xFFFFint * 0xFFFFFFFF, adi, 0x3FFFFFFFC);
            lemma_mul_bound(bhi, 0xFFFF, iwi, 0xFFFFFFFF);
            lemma_mul_bound(bhi * iwi, 0xFFFFint * 0xFFFFFFFF, ani, 0x3FFFFFFFC);
            lemma_mul_bound(ihi, 0xFFFFFFFF, adi, 0x3FFFFFFFC);
            lemma_mul_pos(char_height.num as int, sx as int);
            lemma_mul_pos(char_height.den as int, sy as int);
            lemma_mul_pos(iwi, ani);
            lemma_mul_pos(ihi, adi);
        }
        let an = (char_height.num as u128) * sx;
        let ad = (char_height.den as u128) * sy;
        let iw = img_dims.0 as u128;
        let ih = img_dims.1 as u128;
        let bw = bounds.width as u128;
        let bh = bounds.height as u128;
        if iw * an * bh > bw * ih * ad {
            let n = round_div(bw * ih * ad, iw * an);
            let f = fudge_even_odd(n, bh);
            let h = if f < bh {
                f
            } else {
                bh
            };
            assert(h <= 0xFFFF);
            let gap = ((bh - h) / 2) as u32;
            (Area { width: bounds.width * sxu, height: (h as u32) * syu }, 0u32, gap)
        } else {
            let n = round_div(bh * iw * an, ih * ad);
            let f = fudge_even_odd(n, bw);
            let w = if f < bw {
                f
            } else {
                bw
            };
            assert(w <= 0xFFFF);
            let gap = ((bw - w) / 2) as u32;
            (Area { width: (w as u32) * sxu, height: bounds.height * syu }, gap, 0u32)
        }
    }
}

/// The sample dimensions for a full-terminal fit: the terminal size in
/// cells (a zero size falls back to 80 by 24), scaled to samples, with the
/// non-binding axis cut to the image's adjusted aspect ratio, floored to a
/// whole number of sample blocks.
pub open spec fn spec_calc_dims(
    m: Renderer,
    iw: int,
    ih: int,
    term: (u16, u16),
    aspect: Aspect,
) -> (int, int) {
    let sx = spec_subpixels(m).0 as int;
    let sy = spec_subpixels(m).1 as int;
    let an = aspect.num * sx;
    let ad = aspect.den * sy;
    let tc = if term.0 == 0 || term.1 == 0 {
        (80int, 24int)
    } else {
        (term.0 as int, term.1 as int)
    };
    let tw = tc.0 * sx;
    let th = tc.1 * sy;
    if iw * an * th > tw * ih * ad {
        (tw, vstd::math::min(tw * ih * ad / (iw * an) / sy * sy, th * sy))
    } else {
        (vstd::math::min(th * iw * an / (ih * ad) / sx * sx, tw * sx), th)
    }
}

impl Renderer {
    /// Fits a raster of `img_dims` to the whole terminal of `term` cells.
    #[verifier::spinoff_prover]
    pub fn calc_dims(&self, img_dims: (u32, u32), term: (u16, u16), char_height: Aspect) -> (r: (
        u32,
        u32,
    ))
        requires
            img_dims.0 >= 1,
            img_dims.1 >= 1,
            char_height.wf(),
        ensures
            ({
                let (w, h) = spec_calc_dims(
                    *self,
                    img_dims.0 as int,
                    img_dims.1 as int,
                    term,
                    char_height,
                );
                r.0 == w && r.1 == h
            }),
    {
        let (sxu, syu) = self.subpixels();
        let sx = sxu as u128;
        let sy = syu as u128;
        let (tcw, tch): (u16, u16) = if term.0 == 0 || term.1 == 0 {
            (80, 24)
        } else {
            term
        };
        proof {
            let ani = (char_height.num as int) * (sx as int);
            let adi = (char_height.den as int) * (sy as int);
            let iwi = img_dims.0 as int;
            let ihi = img_dims.1 as int;
            let twi = (tcw as int) * (sx as int);
            let thi = (tch as int) * (sy as int);
            lemma_mul_bound(char_height.num as int, 0xFFFFFFFF, sx as int, 4);
            lemma_mul_bound(char_height.den as int, 0xFFFFFFFF, sy as int, 4);
            lemma_mul_bound(tcw as int, 0xFFFF, sx as int, 4);
            lemma_mul_bound(tch as int, 0xFFFF, sy as int, 4);
            lemma_mul_bound(iwi, 0xFFFFFFFF, ani, 0x3FFFFFFFC);
            lemma_mul_bound(iwi * ani, 0xFFFFFFFFint * 0x3FFFFFFFC, thi, 0x3FFFC);
            lemma_mul_bound(twi, 0x3FFFC, ihi, 0xFFFFFFFF);
            lemma_mul_bound(twi * ihi, 0x3FFFCint * 0xFFFFFFFF, adi, 0x3FFFFFFFC);
            lemma_mul_bound(thi, 0x3FFFC, iwi, 0xFFFFFFFF);
            lemma_mul_bound(thi * iwi, 0x3FFFCint * 0xFFFFFFFF, ani, 0x3FFFFFFFC);
            lemma_mul_bound(ihi, 0xFFFFFFFF, adi, 0x3FFFFFFFC);
            lemma_mul_pos(char_height.num as int, sx as int);
            lemma_mul_pos(char_height.den as int, sy as int);
            lemma_mul_pos(iwi, ani);
            lemma_mul_pos(ihi, adi);
        }
        let an = (char_height.num as u128) * sx;
        let ad = (char_height.den as u128) * sy;
        let iw = img_dims.0 as u128;
        let ih = img_dims.1 as u128;
        let tw = (tcw as u128) * sx;
        let th = (tch as u128) * sy;
        if iw * an * th > tw * ih * ad {
            let cut = tw * ih * ad / (iw * an) / sy * sy;
            let cap = th * sy;
            let h = if cut < cap {
                cut
            } else {
                cap
            };
            proof {
                lemma_mul_bound(th as int, 0x3FFFC, sy as int, 4);
            }
            (tw as u32, h as u32)
        } else {
            let cut = th * iw * an / (ih * ad) / sx * sx;
            let cap = tw * sx;
            let w = if cut < cap {
                cut
            } else {
                cap
            };
            proof {
                lemma_mul_bound(tw as int, 0x3FFFC, sx as int, 4);
            }
            (w as u32, th as u32)
        }
    }
}

/// Aspect-fit invariant: the sample grid never exceeds the bounds scaled by
/// the mode's subpixel factor, sample blocks divide evenly into it, and the
/// unused margin on the non-binding axis splits exactly in half.
pub proof fn lemma_aspect_fit(m: Renderer, iw: int, ih: int, bounds: Area, aspect: Aspect)
    requires
        iw >= 1,
        ih >= 1,
        bounds.width >= 1,
        bounds.height >= 1,
        aspect.wf(),
    ensures
        ({
            let (w, h, gx, gy) = spec_calc_dims_fixed(m, iw, ih, bounds, aspect);
            let sx = spec_subpixels(m).0 as int;
            let sy = spec_subpixels(m).1 as int;
            &&& 0 <= w <= bounds.width * sx
            &&& 0 <= h <= bounds.height * sy
            &&& w % sx == 0
            &&& h % sy == 0
            &&& 0 <= gx
            &&& 0 <= gy
            &&& w / sx + 2 * gx == bounds.width
            &&& h / sy + 2 * gy == bounds.height
        }),
{
    let sx = spec_subpixels(m).0 as int;
    let sy = spec_subpixels(m).1 as int;
    let an = aspect.num * sx;
    let ad = aspect.den * sy;
    let bw = bounds.width as int;
    let bh = bounds.height as int;
    if iw * an * bh > bw * ih * ad {
        let q = spec_round_div(bw * ih * ad, iw * an);
        assert(q >= 0) by {
            lemma_mul_bound(bw, bw, ih, ih);
            lemma_mul_bound(bw * ih, bw * ih, ad, ad);
            lemma_mul_pos(aspect.num as int, sx);
            lemma_mul_pos(iw, an);
            assert(2 * (bw * ih * ad) + iw * an >= 0);
            assert(2 * (iw * an) > 0);
            vstd::arithmetic::div_mod::lemma_div_pos_is_pos(
                2 * (bw * ih * ad) + iw * an,
                2 * (iw * an),
            );
        }
        let hc = vstd::math::min(spec_fudge_even_odd(q, bh), bh);
        assert(hc % 2 == bh % 2 || hc == bh);
        assert((bh - hc) % 2 == 0);
        lemma_cell_axis(hc, bh, sy);
    } else {
        let q = spec_round_div(bh * iw * an, ih * ad);
        assert(q >= 0) by {
            lemma_mul_bound(bh, bh, iw, iw);
            lemma_mul_bound(bh * iw, bh * iw, an, an);
            lemma_mul_pos(aspect.den as int, sy);
            lemma_mul_pos(ih, ad);
            assert(2 * (bh * iw * an) + ih * ad >= 0);
            assert(2 * (ih * ad) > 0);
            vstd::arithmetic::div_mod::lemma_div_pos_is_pos(
                2 * (bh * iw * an) + ih * ad,
                2 * (ih * ad),
            );
        }
        let wc = vstd::math::min(spec_fudge_even_odd(q, bw), bw);
        assert(wc % 2 == bw % 2 || wc == bw);
        assert((bw - wc) % 2 == 0);
        lemma_cell_axis(wc, bw, sx);
        lemma_cell_axis(bh, bh, sy);
    }
    lemma_cell_axis(bw, bw, sx);
}

/// For `0 <= c <= b` cells of `s` samples each: the sample extent stays
/// within `b * s`, divides evenly by `s`, and recovers `c`.
proof fn lemma_cell_axis(c: int, b: int, s: int)
    requires
        0 <= c <= b,
        1 <= s,
    ensures
        0 <= c * s <= b * s,
        (c * s) % s == 0,
        (c * s) / s == c,
{
    lemma_mul_bound(c, b, s, s);
    vstd::arithmetic::div_mod::lemma_div_multiples_vanish(c, s);
    assert(s * c == c * s) by (nonlinear_arith);
    assert((c * s) % s == 0) by (nonlinear_arith)
        requires
            1 <= s,
    {
    }
}

/// Cycling one step forward and one step back returns to the same mode,
/// in either order.
pub proof fn lemma_mode_cycle_roundtrip(m: Renderer)
    ensures
        spec_last_mode(spec_next_mode(m)) == m,
        spec_next_mode(spec_last_mode(m)) == m,
{
}

/// `p / q` rounded to the nearest integer, halves rounding up.
pub open spec fn spec_round_div(p: int, q: int) -> int {
    (2 * p + q) / (2 * q)
}

/// `n` nudged to share `cmp`'s parity, so sample blocks divide evenly and
/// the leftover margin is even. A zero `n` of the wrong parity becomes one
/// cell rather than underflowing.
pub open spec fn spec_fudge_even_odd(n: int, cmp: int) -> int {
    if n % 2 == cmp % 2 {
        n
    } else if n == 0 {
        1
    } else {
        n - 1
    }
}

/// The letterbox fit of an `iw` by `ih` raster into `bounds`, as
/// `(sample width, sample height, column gap, row gap)`: the binding axis
/// fills its bound, the other axis is scaled by the adjusted aspect ratio,
/// rounded, nudged to the bound's parity and clamped, and the leftover
/// margin splits evenly around it.
pub open spec fn spec_calc_dims_fixed(
    m: Renderer,
    iw: int,
    ih: int,
    bounds: Area,
    aspect: Aspect,
) -> (int, int, int, int) {
    let sx = spec_subpixels(m).0 as int;
    let sy = spec_subpixels(m).1 as int;
    let an = aspect.num * sx;
    let ad = aspect.den * sy;
    let bw = bounds.width as int;
    let bh = bounds.height as int;
    if iw * an * bh > bw * ih * ad {
        let h = vstd::math::min(
            spec_fudge_even_odd(spec_round_div(bw * ih * ad, iw * an), bh),
            bh,
        );
        (bw * sx, h * sy, 0, (bh - h) / 2)
    } else {
        let w = vstd::math::min(
            spec_fudge_even_odd(spec_round_div(bh * iw * an, ih * ad), bw),
            bw,
        );
        (w * sx, bh * sy, (bw - w) / 2, 0)
    }
}

proof fn lemma_mul_bound(a: int, ab: int, b: int, bb: int)
    requires
        0 <= a <= ab,
        0 <= b <= bb,
    ensures
        0 <= a * b <= ab * bb,
{
    vstd::arithmetic::mul::lemma_mul_upper_bound(a, ab, b, bb);
    assert(0 <= a * b) by (nonlinear_arith)
        requires
            0 <= a,
            0 <= b,
    {
    }
}

proof fn lemma_mul_pos(a: int, b: int)
    requires
        1 <= a,
        1 <= b,
    ensures
        1 <= a * b,
{
    assert(1 <= a * b) by (nonlinear_arith)
        requires
            1 <= a,
            1 <= b,
    {
    }
}

fn round_div(p: u128, q: u128) -> (r: u128)
    requires
        1 <= q,
        p < 0x400000000000000000000000,
        q < 0x400000000000000000000000,
    ensures
        r == spec_round_div(p as int, q as int),
{
    (2 * p + q) / (2 * q)
}

fn fudge_even_odd(n: u128, cmp: u128) -> (r: u128)
    ensures
        r == spec_fudge_even_odd(n as int, cmp as int),
{
    if n % 2 == cmp % 2 {
        n
    } else if n == 0 {
        1
    } else {
        n - 1
    }
}

/// The brightness of a sample, as the ITU-R BT.709 luma scaled by 10000:
/// `2126 R + 7152 G + 722 B`.
pub open spec fn spec_brightness(c: (u8, u8, u8)) -> int {
    2126 * (c.0 as int) + 7152 * (c.1 as int) + 722 * (c.2 as int)
}

/// The first index of maximal brightness in `s`.
pub open spec fn brightest_index(s: Seq<(u8, u8, u8)>) -> int
    decreases s.len(),
{
    if s.len() <= 1 {
        0
    } else {
        let rest = brightest_index(s.drop_last());
        if spec_brightness(s.last()) > spec_brightness(s[rest]) {
            s.len() - 1
        } else {
            rest
        }
    }
}

/// The first index of minimal brightness in `s`.
pub open spec fn dimmest_index(s: Seq<(u8, u8, u8)>) -> int
    decreases s.len(),
{
    if s.len() <= 1 {
        0
    } else {
        let rest = dimmest_index(s.drop_last());
        if spec_brightness(s.last()) < spec_brightness(s[rest]) {
            s.len() - 1
        } else {
            rest
        }
    }
}

fn calc_brightness(c: (u8, u8, u8)) -> (b: u32)
    ensures
        b == spec_brightness(c),
{
    2126 * (c.0 as u32) + 7152 * (c.1 as u32) + 722 * (c.2 as u32)
}

/// The brightest and dimmest sample colors of a cell, each taken at its
/// first occurrence in scan order.
fn get_extreme_colors(colors: &Vec<(u8, u8, u8)>) -> (r: ((u8, u8, u8), (u8, u8, u8)))
    requires
        colors@.len() >= 1,
    ensures
        r.0 == colors@[brightest_index(colors@)],
        r.1 == colors@[dimmest_index(colors@)],
{
    let ghost s = colors@;
    let mut bi: usize = 0;
    let mut di: usize = 0;
    let mut i: usize = 1;
    while i < colors.len()
        invariant
            1 <= i <= s.len(),
            colors@ == s,
            bi < i,
            di < i,
            bi == brightest_index(s.take(i as int)),
            di == dimmest_index(s.take(i as int)),
        decreases s.len() - i,
    {
        proof {
            assert(s.take(i + 1).drop_last() =~= s.take(i as int));
            assert(s.take(i + 1).last() == s[i as int]);
        }
        let b = calc_brightness(colors[i]);
        if b > calc_brightness(colors[bi]) {
            bi = i;
        }
        if b < calc_brightness(colors[di]) {
            di = i;
        }
        i = i + 1;
    }
    proof {
        assert(s.take(s.len() as int) =~= s);
    }
    (colors[bi], colors[di])
}

/// The distance between two brightness values.
pub open spec fn spec_dist(a: int, b: int) -> int {
    if a >= b {
        a - b
    } else {
        b - a
    }
}

/// Whether a sample leans toward the foreground extreme: its brightness is
/// at least as close to the foreground's as to the background's.
pub open spec fn spec_closer_to_fg(c: (u8, u8, u8), fg: (u8, u8, u8), bg: (u8, u8, u8)) -> bool {
    spec_dist(spec_brightness(c), spec_brightness(fg)) <= spec_dist(
        spec_brightness(c),
        spec_brightness(bg),
    )
}

fn dist_u32(a: u32, b: u32) -> (d: u32)
    ensures
        d == spec_dist(a as int, b as int),
{
    if a >= b {
        a - b
    } else {
        b - a
    }
}

fn is_closer_to_fg(c: (u8, u8, u8), fg: (u8, u8, u8), bg: (u8, u8, u8)) -> (r: bool)
    ensures
        r == spec_closer_to_fg(c, fg, bg),
{
    let b = calc_brightness(c);
    dist_u32(b, calc_brightness(fg)) <= dist_u32(b, calc_brightness(bg))
}

/// The quadrant-block glyph for a `(top-left, top-right, bottom-left,
/// bottom-right)` foreground pattern.
pub open spec fn spec_quarters_char(p: (bool, bool, bool, bool)) -> char {
    match p {
        (false, false, false, false) => ' ',
        (false, false, false, true) => '\u{2597}',
        (false, false, true, false) => '\u{2596}',
        (false, false, true, true) => '\u{2584}',
        (false, true, false, false) => '\u{259d}',
        (false, true, false, true) => '\u{2590}',
        (false, true, true, false) => '\u{259e}',
        (false, true, true, true) => '\u{259f}',
        (true, false, false, false) => '\u{2598}',
        (true, false, false, true) => '\u{259a}',
        (true, false, true, false) => '\u{258c}',
        (true, false, true, true) => '\u{2599}',
        (true, true, false, false) => '\u{2580}',
        (true, true, false, true) => '\u{259c}',
        (true, true, true, false) => '\u{259b}',
        (true, true, true, true) => '\u{2588}',
    }
}

/// The quadrant glyph lookup, exhaustive over all 16 patterns.
pub fn get_quarters_char(subpixels: (bool, bool, bool, bool)) -> (r: char)
    ensures
        r == spec_quarters_char(subpixels),
{
    match subpixels {
        (false, false, false, false) => ' ',
        (false, false, false, true) => '\u{2597}',
        (false, false, true, false) => '\u{2596}',
        (false, false, true, true) => '\u{2584}',
        (false, true, false, false) => '\u{259d}',
        (false, true, false, true) => '\u{2590}',
        (false, true, true, false) => '\u{259e}',
        (false, true, true, true) => '\u{259f}',
        (true, false, false, false) => '\u{2598}',
        (true, false, false, true) => '\u{259a}',
        (true, false, true, false) => '\u{258c}',
        (true, false, true, true) => '\u{2599}',
        (true, true, false, false) => '\u{2580}',
        (true, true, false, true) => '\u{259c}',
        (true, true, true, false) => '\u{259b}',
        (true, true, true, true) => '\u{2588}',
    }
}

/// All 16 quadrant patterns map to pairwise distinct glyphs.
pub proof fn lemma_quarters_distinct(a: (bool, bool, bool, bool), b: (bool, bool, bool, bool))
    requires
        a != b,
    ensures
        spec_quarters_char(a) != spec_quarters_char(b),
{
}

/// The value of a dot pattern, dot `i` contributing bit `i`.
pub open spec fn spec_braille_value(b: Seq<bool>) -> int {
    (if b[0] {
        1int
    } else {
        0int
    }) + (if b[1] {
        2int
    } else {
        0int
    }) + (if b[2] {
        4int
    } else {
        0int
    }) + (if b[3] {
        8int
    } else {
        0int
    }) + (if b[4] {
        16int
    } else {
        0int
    }) + (if b[5] {
        32int
    } else {
        0int
    }) + (if b[6] {
        64int
    } else {
        0int
    }) + (if b[7] {
        128int
    } else {
        0int
    })
}

/// The Braille glyph whose code point is the fixed base plus the dot
/// pattern's value.
pub open spec fn spec_braille_char(b: Seq<bool>) -> char {
    ((10240 + spec_braille_value(b)) as u32) as char
}

/// Relies on `char::from_u32`: yields the character with scalar value `v`
/// whenever `v` is a Unicode scalar value, and nothing otherwise.
#[verifier::external_body]
fn char_from_u32(v: u32) -> (r: Option<char>)
    ensures
        r matches Some(c) ==> c as u32 == v,
        v < 0xD800 || (0xE000 <= v && v <= 0x10FFFF) ==> r is Some,
{
    char::from_u32(v)
}

/// The Braille glyph for a dot pattern, dots ordered left column top to
/// bottom rows one to three, then the right column likewise, then the two
/// fourth-row dots left to right.
pub fn get_braille_char(subpixels: [bool; 8]) -> (r: char)
    ensures
        r == spec_braille_char(subpixels@),
{
    let mut c: u32 = 10240;
    if subpixels[0] {
        c = c + 1;
    }
    if subpixels[1] {
        c = c + 2;
    }
    if subpixels[2] {
        c = c + 4;
    }
    if subpixels[3] {
        c = c + 8;
    }
    if subpixels[4] {
        c = c + 16;
    }
    if subpixels[5] {
        c = c + 32;
    }
    if subpixels[6] {
        c = c + 64;
    }
    if subpixels[7] {
        c = c + 128;
    }
    match char_from_u32(c) {
        Some(ch) => {
            proof {
                vstd::utf8::char_u32_cast(ch, c);
            }
            ch
        },
        None => {
            proof {
                assert(false);
            }
            ' '
        },
    }
}

/// The sample at column `x`, row `y` of a row-major grid `w` samples wide.
pub open spec fn grid_px(sm: Seq<(u8, u8, u8)>, w: int, x: int, y: int) -> (u8, u8, u8) {
    sm[y * w + x]
}

/// The name of what `image::imageops::resize` with the triangle filter
/// returns: a pure function of the source pixels and the target dimensions.
pub uninterp spec fn resized_pixels(
    px: Seq<(u8, u8, u8)>,
    sw: int,
    sh: int,
    dw: int,
    dh: int,
) -> Seq<(u8, u8, u8)>;

/// Relies on `image::imageops::resize` with `FilterType::Triangle`: the
/// result depends only on the source pixels and the target dimensions, and
/// is a buffer of exactly the target size.
#[verifier::external_body]
fn resize_raster(img: &Raster, w: u32, h: u32) -> (r: Raster)
    requires
        img.wf(),
        w >= 1,
        h >= 1,
    ensures
        r.width == w,
        r.height == h,
        r.pixels@.len() == (w as int) * (h as int),
        r.pixels@ == resized_pixels(
            img.pixels@,
            img.width as int,
            img.height as int,
            w as int,
            h as int,
        ),
{
    let buf: Vec<u8> = img.pixels.iter().flat_map(|p| [p.0, p.1, p.2]).collect();
    let src = image::RgbImage::from_raw(img.width, img.height, buf).unwrap();
    let out = image::imageops::resize(&src, w, h, image::imageops::FilterType::Triangle);
    let pixels = out.pixels().map(|p| (p.0[0], p.0[1], p.0[2])).collect();
    Raster { width: w, height: h, pixels }
}

/// The cell glyph text at sample position `(x, y)`: color escapes, one
/// glyph chosen from the cell's samples, and a reset.
pub open spec fn spec_render_pixel(
    m: Renderer,
    sm: Seq<(u8, u8, u8)>,
    w: int,
    x: int,
    y: int,
) -> Seq<char> {
    match m {
        Renderer::PixelChar => {
            let c = grid_px(sm, w, x, y);
            spec_fg_escape(c) + seq!['\u{2588}'] + spec_reset_escape()
        },
        Renderer::HalfChar => {
            let t = grid_px(sm, w, x, y);
            let b = grid_px(sm, w, x, y + 1);
            spec_fg_escape(t) + spec_bg_escape(b) + seq!['\u{2580}'] + spec_reset_escape()
        },
        Renderer::Quarters => {
            let s = seq![
                grid_px(sm, w, x, y),
                grid_px(sm, w, x + 1, y),
                grid_px(sm, w, x, y + 1),
                grid_px(sm, w, x + 1, y + 1),
            ];
            let fg = s[brightest_index(s)];
            let bg = s[dimmest_index(s)];
            let pattern = (
                spec_closer_to_fg(s[0], fg, bg),
                spec_closer_to_fg(s[1], fg, bg),
                spec_closer_to_fg(s[2], fg, bg),
                spec_closer_to_fg(s[3], fg, bg),
            );
            spec_fg_escape(fg) + spec_bg_escape(bg) + seq![spec_quarters_char(pattern)]
                + spec_reset_escape()
        },
        Renderer::Braille => {
            let s = seq![
                grid_px(sm, w, x, y),
                grid_px(sm, w, x + 1, y),
                grid_px(sm, w, x, y + 1),
                grid_px(sm, w, x + 1, y + 1),
                grid_px(sm, w, x, y + 2),
                grid_px(sm, w, x + 1, y + 2),
                grid_px(sm, w, x, y + 3),
                grid_px(sm, w, x + 1, y + 3),
            ];
            let fg = s[brightest_index(s)];
            let bg = s[dimmest_index(s)];
            let bits = seq![
                spec_closer_to_fg(s[0], fg, bg),
                spec_closer_to_fg(s[2], fg, bg),
                spec_closer_to_fg(s[4], fg, bg),
                spec_closer_to_fg(s[1], fg, bg),
                spec_closer_to_fg(s[3], fg, bg),
                spec_closer_to_fg(s[5], fg, bg),
                spec_closer_to_fg(s[6], fg, bg),
                spec_closer_to_fg(s[7], fg, bg),
            ];
            spec_fg_escape(fg) + spec_bg_escape(bg) + seq![spec_braille_char(bits)]
                + spec_reset_escape()
        },
    }
}

impl Renderer {
    /// Renders the one cell whose top-left sample is `(x, y)`, appending
    /// its text to `out`.
    #[verifier::rlimit(60)]
    fn render_pixel(&self, img: &Raster, x: u32, y: u32, out: &mut Vec<char>)
        requires
            img.wf(),
            x + spec_subpixels(*self).0 <= img.width,
            y + spec_subpixels(*self).1 <= img.height,
        ensures
            final(out)@ == old(out)@ + spec_render_pixel(
                *self,
                img.pixels@,
                img.width as int,
                x as int,
                y as int,
            ),
    {
        let ghost sm = img.pixels@;
        let ghost w = img.width as int;
        match self {
            Renderer::PixelChar => {
                let c = img.get(x, y);
                push_fg_escape(out, c);
                out.push('\u{2588}');
                push_reset_escape(out);
                assert(out@ =~= old(out)@ + spec_render_pixel(
                    *self,
                    sm,
                    w,
                    x as int,
                    y as int,
                ));
            },
            Renderer::HalfChar => {
                let t = img.get(x, y);
                let b = img.get(x, y + 1);
                push_fg_escape(out, t);
                push_bg_escape(out, b);
                out.push('\u{2580}');
                push_reset_escape(out);
                assert(out@ =~= old(out)@ + spec_render_pixel(
                    *self,
                    sm,
                    w,
                    x as int,
                    y as int,
                ));
            },
            Renderer::Quarters => {
                let mut samples: Vec<(u8, u8, u8)> = Vec::new();
                samples.push(img.get(x, y));
                samples.push(img.get(x + 1, y));
                samples.push(img.get(x, y + 1));
                samples.push(img.get(x + 1, y + 1));
                let ghost s = seq![
                    grid_px(sm, w, x as int, y as int),
                    grid_px(sm, w, x + 1, y as int),
                    grid_px(sm, w, x as int, y + 1),
                    grid_px(sm, w, x + 1, y + 1),
                ];
                proof {
                    assert(samples@ =~= s);
                }
                let (fg, bg) = get_extreme_colors(&samples);
                let pattern = (
                    is_closer_to_fg(samples[0], fg, bg),
                    is_closer_to_fg(samples[1], fg, bg),
                    is_closer_to_fg(samples[2], fg, bg),
                    is_closer_to_fg(samples[3], fg, bg),
                );
                let g = get_quarters_char(pattern);
                push_fg_escape(out, fg);
                push_bg_escape(out, bg);
                out.push(g);
                push_reset_escape(out);
                assert(out@ =~= old(out)@ + spec_render_pixel(
                    *self,
                    sm,
                    w,
                    x as int,
                    y as int,
                ));
            },
            Renderer::Braille => {
                let mut samples: Vec<(u8, u8, u8)> = Vec::new();
                samples.push(img.get(x, y));
                samples.push(img.get(x + 1, y));
                samples.push(img.get(x, y + 1));
                samples.push(img.get(x + 1, y + 1));
                samples.push(img.get(x, y + 2));
                samples.push(img.get(x + 1, y + 2));
                samples.push(img.get(x, y + 3));
                samples.push(img.get(x + 1, y + 3));
                let ghost s = seq![
                    grid_px(sm, w, x as int, y as int),
                    grid_px(sm, w, x + 1, y as int),
                    grid_px(sm, w, x as int, y + 1),
                    grid_px(sm, w, x + 1, y + 1),
                    grid_px(sm, w, x as int, y + 2),
                    grid_px(sm, w, x + 1, y + 2),
                    grid_px(sm, w, x as int, y + 3),
                    grid_px(sm, w, x + 1, y + 3),
                ];
                proof {
                    assert(samples@ =~= s);
                }
                let (fg, bg) = get_extreme_colors(&samples);
                let dots: [bool; 8] = [
                    is_closer_to_fg(samples[0], fg, bg),
                    is_closer_to_fg(samples[2], fg, bg),
                    is_closer_to_fg(samples[4], fg, bg),
                    is_closer_to_fg(samples[1], fg, bg),
                    is_closer_to_fg(samples[3], fg, bg),
                    is_closer_to_fg(samples[5], fg, bg),
                    is_closer_to_fg(samples[6], fg, bg),
                    is_closer_to_fg(samples[7], fg, bg),
                ];
                let g = get_braille_char(dots);
                proof {
                    assert(dots@ =~= seq![
                        spec_closer_to_fg(s[0], fg, bg),
                        spec_closer_to_fg(s[2], fg, bg),
                        spec_closer_to_fg(s[4], fg, bg),
                        spec_closer_to_fg(s[1], fg, bg),
                        spec_closer_to_fg(s[3], fg, bg),
                        spec_closer_to_fg(s[5], fg, bg),
                        spec_closer_to_fg(s[6], fg, bg),
                        spec_closer_to_fg(s[7], fg, bg),
                    ]);
                }
                push_fg_escape(out, fg);
                push_bg_escape(out, bg);
                out.push(g);
                push_reset_escape(out);
                assert(out@ =~= old(out)@ + spec_render_pixel(
                    *self,
                    sm,
                    w,
                    x as int,
                    y as int,
                ));
            },
        }
    }
}

/// The rendered cells of one character row: cells `0 .. cols`, left to
/// right, reading samples from row `y0` down.
pub open spec fn spec_row_cells(
    m: Renderer,
    sm: Seq<(u8, u8, u8)>,
    w: int,
    y0: int,
    cols: int,
) -> Seq<char>
    decreases cols,
{
    if cols <= 0 {
        Seq::empty()
    } else {
        spec_row_cells(m, sm, w, y0, cols - 1) + spec_render_pixel(
            m,
            sm,
            w,
            (cols - 1) * (spec_subpixels(m).0 as int),
            y0,
        )
    }
}

/// The sample grid the glyphs read: the raster's own pixels when the fit
/// equals its dimensions, else the smooth-filter resize.
pub open spec fn spec_sample_grid(img: Raster, w: int, h: int) -> Seq<(u8, u8, u8)> {
    if w == img.width && h == img.height {
        img.pixels@
    } else {
        resized_pixels(img.pixels@, img.width as int, img.height as int, w, h)
    }
}

/// The full rendered frame: blank centering rows, then each cell row
/// padded by the centering columns, always exactly filling `bounds`.
pub open spec fn spec_render_player(
    m: Renderer,
    img: Raster,
    bounds: Area,
    aspect: Aspect,
) -> Seq<Seq<char>> {
    let (w, h, gx, gy) = spec_calc_dims_fixed(m, img.width as int, img.height as int, bounds, aspect);
    let sm = spec_sample_grid(img, w, h);
    let sx = spec_subpixels(m).0 as int;
    let sy = spec_subpixels(m).1 as int;
    let rows = h / sy;
    let cols = w / sx;
    Seq::new(
        bounds.height as nat,
        |row: int|
            if row < gy || row >= gy + rows {
                crate::ansi::spec_repeat_char(' ', bounds.width as int)
            } else {
                crate::ansi::spec_repeat_char(' ', gx) + spec_row_cells(
                    m,
                    sm,
                    w,
                    (row - gy) * sy,
                    cols,
                ) + crate::ansi::spec_repeat_char(' ', gx)
            },
    )
}

proof fn lemma_cell_step(c: int, n: int, s: int)
    requires
        0 <= c < n,
        1 <= s,
    ensures
        0 <= c * s,
        c * s + s <= n * s,
        c * s + s == (c + 1) * s,
{
    assert(0 <= c * s && c * s + s <= n * s && c * s + s == (c + 1) * s) by (nonlinear_arith)
        requires
            0 <= c < n,
            1 <= s,
    {
    }
}

impl Renderer {
    /// Builds one rendered cell row: the centering spacer, `cols` cells
    /// read from sample row `y0`, and the spacer again.
    #[verifier::loop_isolation(false)]
    #[verifier::spinoff_prover]
    fn render_row(&self, scaled: &Raster, gap_x: u32, y0: u32, cols: u32) -> (line: Vec<char>)
        requires
            cols >= 1 ==> scaled.wf(),
            cols >= 1 ==> (cols as int) * (spec_subpixels(*self).0 as int) == scaled.width as int,
            cols >= 1 ==> y0 + spec_subpixels(*self).1 <= scaled.height,
        ensures
            line@ == crate::ansi::spec_repeat_char(' ', gap_x as int) + spec_row_cells(
                *self,
                scaled.pixels@,
                scaled.width as int,
                y0 as int,
                cols as int,
            ) + crate::ansi::spec_repeat_char(' ', gap_x as int),
    {
        let (sxu, syu) = self.subpixels();
        let mut line: Vec<char> = Vec::new();
        crate::ansi::push_repeat_char(&mut line, ' ', gap_x as usize);
        let mut col: u32 = 0;
        while col < cols
            invariant
                col <= cols,
                line@ == crate::ansi::spec_repeat_char(' ', gap_x as int) + spec_row_cells(
                    *self,
                    scaled.pixels@,
                    scaled.width as int,
                    y0 as int,
                    col as int,
                ),
            decreases cols - col,
        {
            proof {
                lemma_cell_step(col as int, cols as int, sxu as int);
            }
            self.render_pixel(scaled, col * sxu, y0, &mut line);
            col = col + 1;
            assert(line@ =~= crate::ansi::spec_repeat_char(' ', gap_x as int) + spec_row_cells(
                *self,
                scaled.pixels@,
                scaled.width as int,
                y0 as int,
                col as int,
            ));
        }
        crate::ansi::push_repeat_char(&mut line, ' ', gap_x as usize);
        line
    }

    /// Renders `img` letterboxed into `bounds`: one string per terminal
    /// row, identical inputs always producing identical text.
    #[verifier::loop_isolation(false)]
    #[verifier::rlimit(100)]
    #[verifier::spinoff_prover]
    pub fn render_player(&self, img: &Raster, bounds: Area, char_height: Aspect) -> (r: Vec<
        String,
    >)
        requires
            img.wf(),
            1 <= bounds.width <= 0xFFFF,
            1 <= bounds.height <= 0xFFFF,
            char_height.wf(),
        ensures
            r@.len() == bounds.height as int,
            r@.map_values(|s: String| s@) == spec_render_player(*self, *img, bounds, char_height),
    {
        let ghost spec_lines = spec_render_player(*self, *img, bounds, char_height);
        let (dims, gap_x, gap_y) = self.calc_dims_fixed((img.width, img.height), bounds, char_height);
        proof {
            lemma_aspect_fit(
                *self,
                img.width as int,
                img.height as int,
                bounds,
                char_height,
            );
        }
        let (sxu, syu) = self.subpixels();
        let rows = dims.height / syu;
        let cols = dims.width / sxu;
        let ghost sm = spec_sample_grid(*img, dims.width as int, dims.height as int);
        let scaled: Raster = if dims.width == img.width && dims.height == img.height {
            img.duplicate()
        } else if dims.width >= 1 && dims.height >= 1 {
            resize_raster(img, dims.width, dims.height)
        } else {
            crate::raster::blank_frame()
        };
        proof {
            if rows >= 1 && cols >= 1 {
                assert(dims.width >= 1 && dims.height >= 1);
                assert(scaled.wf());
                assert(scaled.width == dims.width && scaled.height == dims.height);
                assert(scaled.pixels@ == sm);
            }
        }
        let mut out: Vec<String> = Vec::new();
        let mut i: u32 = 0;
        while i < gap_y
            invariant
                i <= gap_y,
                out@.len() == i as int,
                forall|j: int| 0 <= j < i ==> out@[j]@ == spec_lines[j],
            decreases gap_y - i,
        {
            let mut line: Vec<char> = Vec::new();
            crate::ansi::push_repeat_char(&mut line, ' ', bounds.width as usize);
            out.push(crate::ansi::string_from_chars(&line));
            i = i + 1;
        }
        let mut row: u32 = 0;
        while row < rows
            invariant
                row <= rows,
                out@.len() == gap_y + row,
                forall|j: int| 0 <= j < out@.len() ==> out@[j]@ == spec_lines[j],
            decreases rows - row,
        {
            proof {
                lemma_cell_step(row as int, rows as int, syu as int);
                vstd::arithmetic::div_mod::lemma_fundamental_div_mod(
                    dims.height as int,
                    syu as int,
                );
            }
            let line = self.render_row(&scaled, gap_x, row * syu, cols);
            out.push(crate::ansi::string_from_chars(&line));
            row = row + 1;
            proof {
                if cols == 0 {
                    assert(spec_row_cells(
                        *self,
                        sm,
                        dims.width as int,
                        ((row - 1) as int) * (syu as int),
                        0,
                    ) =~= spec_row_cells(
                        *self,
                        scaled.pixels@,
                        scaled.width as int,
                        ((row - 1) as int) * (syu as int),
                        0,
                    ));
                }
                assert(out@[out@.len() - 1]@ =~= spec_lines[out@.len() - 1]);
            }
        }
        let mut k: u32 = 0;
        while k < gap_y
            invariant
                k <= gap_y,
                out@.len() == gap_y + rows + k,
                forall|j: int| 0 <= j < out@.len() ==> out@[j]@ == spec_lines[j],
            decreases gap_y - k,
        {
            let mut line: Vec<char> = Vec::new();
            crate::ansi::push_repeat_char(&mut line, ' ', bounds.width as usize);
            out.push(crate::ansi::string_from_chars(&line));
            k = k + 1;
        }
        proof {
            assert(out@.len() == bounds.height as int);
            assert(out@.map_values(|s: String| s@) =~= spec_lines);
        }
        out
    }
}

/// Render determinism: the rendered text depends only on the raster's
/// dimensions and pixels, the bounds, the mode, and the aspect ratio.
pub proof fn lemma_render_deterministic(
    m: Renderer,
    a: Raster,
    b: Raster,
    bounds: Area,
    aspect: Aspect,
)
    requires
        a.width == b.width,
        a.height == b.height,
        a.pixels@ == b.pixels@,
    ensures
        spec_render_player(m, a, bounds, aspect) == spec_render_player(m, b, bounds, aspect),
{
    assert(spec_render_player(m, a, bounds, aspect) =~= spec_render_player(m, b, bounds, aspect));
}

/// The Braille mapping is a pure bit offset from the base code point and is
/// invertible: distinct dot patterns give distinct glyphs.
pub proof fn lemma_braille_invertible(a: Seq<bool>, b: Seq<bool>)
    requires
        a.len() == 8,
        b.len() == 8,
        spec_braille_char(a) == spec_braille_char(b),
    ensures
        a =~= b,
{
    let va = spec_braille_value(a);
    let vb = spec_braille_value(b);
    let ua = (10240 + va) as u32;
    let ub = (10240 + vb) as u32;
    assert(0 <= va < 256 && 0 <= vb < 256);
    assert((ua as char) as u32 == ua) by {
        vstd::utf8::char_u32_cast(spec_braille_char(a), ua);
    }
    assert((ub as char) as u32 == ub) by {
        vstd::utf8::char_u32_cast(spec_braille_char(b), ub);
    }
    assert(va == vb);
    assert forall|i: int| 0 <= i < 8 implies a[i] == b[i] by {
        if a[i] != b[i] {
            assert(va != vb);
        }
    }
}

} // verus!
