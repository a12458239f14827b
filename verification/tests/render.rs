use unicode_player::raster::{blank_frame, Raster};
use unicode_player::renderers::{get_braille_char, get_quarters_char, Aspect, Renderer};
use unicode_player::tui::Area;

fn white() -> (u8, u8, u8) {
    (255, 255, 255)
}

fn black() -> (u8, u8, u8) {
    (0, 0, 0)
}

#[test]
fn mode_cycle_forward() {
    assert!(matches!(Renderer::PixelChar.next_mode(), Renderer::HalfChar));
    assert!(matches!(Renderer::HalfChar.next_mode(), Renderer::Quarters));
    assert!(matches!(Renderer::Quarters.next_mode(), Renderer::Braille));
    assert!(matches!(Renderer::Braille.next_mode(), Renderer::PixelChar));
}

#[test]
fn mode_cycle_backward() {
    assert!(matches!(Renderer::PixelChar.last_mode(), Renderer::Braille));
    assert!(matches!(Renderer::HalfChar.last_mode(), Renderer::PixelChar));
    assert!(matches!(Renderer::Quarters.last_mode(), Renderer::HalfChar));
    assert!(matches!(Renderer::Braille.last_mode(), Renderer::Quarters));
}

#[test]
fn mode_cycle_roundtrip() {
    for m in [
        Renderer::PixelChar,
        Renderer::HalfChar,
        Renderer::Quarters,
        Renderer::Braille,
    ] {
        assert_eq!(m.next_mode().last_mode(), m);
        assert_eq!(m.last_mode().next_mode(), m);
    }
}

#[test]
fn mode_names() {
    assert_eq!(Renderer::PixelChar.name(), "Full Chars");
    assert_eq!(Renderer::HalfChar.name(), "Half Chars");
    assert_eq!(Renderer::Quarters.name(), "Quarters");
    assert_eq!(Renderer::Braille.name(), "Braille");
}

#[test]
fn subpixel_factors() {
    assert_eq!(Renderer::PixelChar.subpixels(), (1, 1));
    assert_eq!(Renderer::HalfChar.subpixels(), (1, 2));
    assert_eq!(Renderer::Quarters.subpixels(), (2, 2));
    assert_eq!(Renderer::Braille.subpixels(), (2, 4));
}

#[test]
fn quarters_glyphs_match_fixed_table() {
    let expected = [
        ((false, false, false, false), ' '),
        ((false, false, false, true), '\u{2597}'),
        ((false, false, true, false), '\u{2596}'),
        ((false, false, true, true), '\u{2584}'),
        ((false, true, false, false), '\u{259d}'),
        ((false, true, false, true), '\u{2590}'),
        ((false, true, true, false), '\u{259e}'),
        ((false, true, true, true), '\u{259f}'),
        ((true, false, false, false), '\u{2598}'),
        ((true, false, false, true), '\u{259a}'),
        ((true, false, true, false), '\u{258c}'),
        ((true, false, true, true), '\u{2599}'),
        ((true, true, false, false), '\u{2580}'),
        ((true, true, false, true), '\u{259c}'),
        ((true, true, true, false), '\u{259b}'),
        ((true, true, true, true), '\u{2588}'),
    ];
    for (pattern, glyph) in expected {
        assert_eq!(get_quarters_char(pattern), glyph);
    }
}

#[test]
fn quarters_glyphs_are_distinct() {
    let mut glyphs = Vec::new();
    for a in [false, true] {
        for b in [false, true] {
            for c in [false, true] {
                for d in [false, true] {
                    glyphs.push(get_quarters_char((a, b, c, d)));
                }
            }
        }
    }
    for i in 0..glyphs.len() {
        for j in 0..glyphs.len() {
            if i != j {
                assert_ne!(glyphs[i], glyphs[j]);
            }
        }
    }
}

#[test]
fn braille_glyph_is_bit_offset_and_invertible() {
    for k in 0u32..256 {
        let mut dots = [false; 8];
        for (i, dot) in dots.iter_mut().enumerate() {
            *dot = (k >> i) & 1 == 1;
        }
        let c = get_braille_char(dots);
        assert_eq!(c as u32, 10240 + k);
    }
}

#[test]
fn quarters_checkerboard_cell() {
    // A 2-by-2 raster [white, black, black, white] at one cell: the
    // diagonal quadrant glyph, white on black.
    let img = Raster {
        width: 2,
        height: 2,
        pixels: vec![white(), black(), black(), white()],
    };
    let bounds = Area { width: 1, height: 1 };
    let aspect = Aspect { num: 1, den: 1 };
    let lines = Renderer::Quarters.render_player(&img, bounds, aspect);
    assert_eq!(lines.len(), 1);
    assert_eq!(
        lines[0],
        "\u{1b}[38;2;255;255;255m\u{1b}[48;2;0;0;0m\u{259a}\u{1b}[0m"
    );
}

#[test]
fn render_is_deterministic() {
    let img = Raster {
        width: 2,
        height: 2,
        pixels: vec![(10, 20, 30), (200, 100, 0), (0, 0, 0), (255, 255, 255)],
    };
    let bounds = Area { width: 6, height: 4 };
    let aspect = Aspect { num: 11, den: 5 };
    for m in [
        Renderer::PixelChar,
        Renderer::HalfChar,
        Renderer::Quarters,
        Renderer::Braille,
    ] {
        let a = m.render_player(&img, bounds, aspect);
        let b = m.render_player(&img, bounds, aspect);
        assert_eq!(a, b);
    }
}

#[test]
fn pixel_mode_paints_single_pixel_color() {
    let img = Raster { width: 1, height: 1, pixels: vec![(1, 2, 3)] };
    let bounds = Area { width: 1, height: 1 };
    let aspect = Aspect { num: 1, den: 1 };
    let lines = Renderer::PixelChar.render_player(&img, bounds, aspect);
    assert_eq!(lines, vec!["\u{1b}[38;2;1;2;3m\u{2588}\u{1b}[0m".to_string()]);
}

#[test]
fn half_mode_splits_top_and_bottom() {
    let img = Raster {
        width: 1,
        height: 2,
        pixels: vec![white(), black()],
    };
    let bounds = Area { width: 1, height: 1 };
    let aspect = Aspect { num: 2, den: 1 };
    let lines = Renderer::HalfChar.render_player(&img, bounds, aspect);
    assert_eq!(lines.len(), 1);
    assert_eq!(
        lines[0],
        "\u{1b}[38;2;255;255;255m\u{1b}[48;2;0;0;0m\u{2580}\u{1b}[0m"
    );
}

#[test]
fn solid_color_survives_resize() {
    // A solid red raster resized up stays solid red in every cell.
    let img = Raster {
        width: 2,
        height: 2,
        pixels: vec![(255, 0, 0); 4],
    };
    let bounds = Area { width: 4, height: 4 };
    let aspect = Aspect { num: 1, den: 1 };
    let lines = Renderer::PixelChar.render_player(&img, bounds, aspect);
    assert_eq!(lines.len(), 4);
    let cell = "\u{1b}[38;2;255;0;0m\u{2588}\u{1b}[0m";
    let row: String = std::iter::repeat(cell).take(4).collect();
    for line in &lines {
        assert_eq!(line, &row);
    }
}

#[test]
fn letterbox_pads_blank_rows_evenly() {
    // A wide raster in a tall area: content fills the middle rows and the
    // margin splits evenly into blank rows above and below.
    let img = Raster {
        width: 4,
        height: 2,
        pixels: vec![black(); 8],
    };
    let bounds = Area { width: 4, height: 4 };
    let aspect = Aspect { num: 1, den: 1 };
    let lines = Renderer::PixelChar.render_player(&img, bounds, aspect);
    assert_eq!(lines.len(), 4);
    assert_eq!(lines[0], "    ");
    assert_eq!(lines[3], "    ");
    assert!(lines[1].contains('\u{2588}'));
    assert!(lines[2].contains('\u{2588}'));
}

#[test]
fn pillarbox_pads_blank_columns_evenly() {
    // A tall raster in a wide area: blank columns split evenly left and
    // right of the content.
    let img = Raster {
        width: 1,
        height: 4,
        pixels: vec![white(); 4],
    };
    let bounds = Area { width: 5, height: 4 };
    let aspect = Aspect { num: 1, den: 1 };
    let lines = Renderer::PixelChar.render_player(&img, bounds, aspect);
    assert_eq!(lines.len(), 4);
    for line in &lines {
        assert!(line.starts_with("  "));
        assert!(line.ends_with("  "));
    }
}

#[test]
fn calc_dims_fixed_checkerboard_case() {
    let aspect = Aspect { num: 1, den: 1 };
    let (dims, gx, gy) = Renderer::Quarters.calc_dims_fixed(
        (2, 2),
        Area { width: 1, height: 1 },
        aspect,
    );
    assert_eq!((dims.width, dims.height, gx, gy), (2, 2, 0, 0));
}

#[test]
fn calc_dims_terminal_fallback() {
    // A zero terminal size falls back to 80 by 24 cells.
    let aspect = Aspect { num: 2, den: 1 };
    let with_zero = Renderer::PixelChar.calc_dims((80, 24), (0, 0), aspect);
    let with_default = Renderer::PixelChar.calc_dims((80, 24), (80, 24), aspect);
    assert_eq!(with_zero, with_default);
}

#[test]
fn blank_frame_is_one_black_pixel() {
    let f = blank_frame();
    assert_eq!(f.width, 1);
    assert_eq!(f.height, 1);
    assert_eq!(f.pixels, vec![(0, 0, 0)]);
}
