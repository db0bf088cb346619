use gui_helpers::color::Rgb;
use gui_helpers::console::GridConsole;
use gui_helpers::draw::{draw_bar_horizontal, draw_bar_vertical, draw_box, draw_box_double};

fn hbar_glyphs(width: usize, n: i32, max: i32) -> Vec<u8> {
    let mut g = GridConsole::new(width, 1);
    draw_bar_horizontal(
        &mut g,
        0,
        0,
        width as i32,
        n,
        max,
        Rgb::new(9, 9, 9),
        Rgb::new(1, 1, 1),
    );
    let mut out = Vec::new();
    for x in 0..width {
        out.push(g.cell_at(x, 0).unwrap().glyph);
    }
    out
}

fn vbar_glyphs(height: usize, n: i32, max: i32) -> Vec<u8> {
    let mut g = GridConsole::new(1, height);
    draw_bar_vertical(
        &mut g,
        0,
        0,
        height as i32,
        n,
        max,
        Rgb::new(9, 9, 9),
        Rgb::new(1, 1, 1),
    );
    let mut out = Vec::new();
    for y in 0..height {
        out.push(g.cell_at(0, y).unwrap().glyph);
    }
    out
}

#[test]
fn hbar_half_fills_six_columns() {
    // fill ratio 0.5 over 10 columns: boundary at 5, inclusive
    let glyphs = hbar_glyphs(10, 5, 10);
    assert_eq!(glyphs, vec![178, 178, 178, 178, 178, 178, 176, 176, 176, 176]);
}

#[test]
fn hbar_zero_numerator_fills_first_column() {
    let glyphs = hbar_glyphs(10, 0, 10);
    assert_eq!(glyphs, vec![178, 176, 176, 176, 176, 176, 176, 176, 176, 176]);
}

#[test]
fn hbar_full_fills_every_column() {
    let glyphs = hbar_glyphs(10, 10, 10);
    assert_eq!(glyphs, vec![178; 10]);
}

#[test]
fn hbar_one_third_truncates() {
    // 1/3 of 3 columns: boundary at 1, inclusive, so two dense columns
    let glyphs = hbar_glyphs(3, 1, 3);
    assert_eq!(glyphs, vec![178, 178, 176]);
}

#[test]
fn hbar_negative_numerator_fills_nothing() {
    let glyphs = hbar_glyphs(10, -5, 10);
    assert_eq!(glyphs, vec![176; 10]);
}

#[test]
fn vbar_half_fills_bottom_five_rows() {
    let glyphs = vbar_glyphs(10, 5, 10);
    assert_eq!(glyphs, vec![176, 176, 176, 176, 176, 178, 178, 178, 178, 178]);
}

#[test]
fn vbar_full_fills_every_row() {
    let glyphs = vbar_glyphs(10, 10, 10);
    assert_eq!(glyphs, vec![178; 10]);
}

#[test]
fn hbar_zero_max_is_deterministic() {
    // a zero denominator must not crash and must repeat exactly
    let first = hbar_glyphs(10, 5, 0);
    let second = hbar_glyphs(10, 5, 0);
    assert_eq!(first, second);
    // positive numerator over zero: boundary at +infinity, all dense
    assert_eq!(first, vec![178; 10]);

    let zero = hbar_glyphs(10, 0, 0);
    assert_eq!(zero, hbar_glyphs(10, 0, 0));
    // NaN ratio casts to zero: the inclusive boundary still fills column 0
    assert_eq!(zero, vec![178, 176, 176, 176, 176, 176, 176, 176, 176, 176]);

    let negative = hbar_glyphs(10, -4, 0);
    assert_eq!(negative, hbar_glyphs(10, -4, 0));
    assert_eq!(negative, vec![176; 10]);
}

#[test]
fn vbar_zero_max_is_deterministic() {
    let positive = vbar_glyphs(8, 3, 0);
    assert_eq!(positive, vbar_glyphs(8, 3, 0));
    assert_eq!(positive, vec![178; 8]);

    let zero = vbar_glyphs(8, 0, 0);
    assert_eq!(zero, vbar_glyphs(8, 0, 0));
    assert_eq!(zero, vec![176; 8]);

    let negative = vbar_glyphs(8, -1, 0);
    assert_eq!(negative, vbar_glyphs(8, -1, 0));
    assert_eq!(negative, vec![176; 8]);
}

#[test]
fn bar_colors_are_the_callers() {
    let mut g = GridConsole::new(4, 1);
    let fg = Rgb::new(100, 101, 102);
    let bg = Rgb::new(103, 104, 105);
    draw_bar_horizontal(&mut g, 0, 0, 4, 1, 2, fg, bg);
    for x in 0..4 {
        let c = g.cell_at(x, 0).unwrap();
        assert_eq!(c.fg, fg);
        assert_eq!(c.bg, bg);
    }
}

#[test]
fn operations_twice_match_once() {
    let fg = Rgb::new(50, 60, 70);
    let bg = Rgb::new(80, 90, 100);

    let mut once = GridConsole::new(12, 12);
    let mut twice = GridConsole::new(12, 12);
    draw_box(&mut once, 1, 1, 6, 5, fg, bg);
    draw_box(&mut twice, 1, 1, 6, 5, fg, bg);
    draw_box(&mut twice, 1, 1, 6, 5, fg, bg);
    for y in 0..12 {
        for x in 0..12 {
            assert_eq!(once.cell_at(x, y), twice.cell_at(x, y));
        }
    }

    let mut once = GridConsole::new(12, 12);
    let mut twice = GridConsole::new(12, 12);
    draw_box_double(&mut once, 2, 0, 7, 9, fg, bg);
    draw_box_double(&mut twice, 2, 0, 7, 9, fg, bg);
    draw_box_double(&mut twice, 2, 0, 7, 9, fg, bg);
    for y in 0..12 {
        for x in 0..12 {
            assert_eq!(once.cell_at(x, y), twice.cell_at(x, y));
        }
    }

    let mut once = GridConsole::new(12, 12);
    let mut twice = GridConsole::new(12, 12);
    draw_bar_horizontal(&mut once, 0, 3, 12, 7, 9, fg, bg);
    draw_bar_horizontal(&mut twice, 0, 3, 12, 7, 9, fg, bg);
    draw_bar_horizontal(&mut twice, 0, 3, 12, 7, 9, fg, bg);
    for y in 0..12 {
        for x in 0..12 {
            assert_eq!(once.cell_at(x, y), twice.cell_at(x, y));
        }
    }

    let mut once = GridConsole::new(12, 12);
    let mut twice = GridConsole::new(12, 12);
    draw_bar_vertical(&mut once, 5, 0, 12, 2, 9, fg, bg);
    draw_bar_vertical(&mut twice, 5, 0, 12, 2, 9, fg, bg);
    draw_bar_vertical(&mut twice, 5, 0, 12, 2, 9, fg, bg);
    for y in 0..12 {
        for x in 0..12 {
            assert_eq!(once.cell_at(x, y), twice.cell_at(x, y));
        }
    }
}

#[test]
fn bar_overwrites_box_row() {
    let mut g = GridConsole::new(8, 8);
    let fg = Rgb::new(1, 2, 3);
    let bg = Rgb::new(4, 5, 6);
    draw_box(&mut g, 0, 0, 8, 8, fg, bg);
    draw_bar_horizontal(&mut g, 0, 3, 8, 2, 8, fg, bg);
    // the bar row is all shade glyphs now
    for x in 0..8 {
        let glyph = g.cell_at(x, 3).unwrap().glyph;
        assert!(glyph == 178 || glyph == 176);
    }
    // fill ratio 0.25 over 8 columns: boundary at 2, inclusive
    assert_eq!(g.cell_at(2, 3).unwrap().glyph, 178);
    assert_eq!(g.cell_at(3, 3).unwrap().glyph, 176);
    // the rows above and below keep the box edges
    assert_eq!(g.cell_at(0, 2).unwrap().glyph, 179);
    assert_eq!(g.cell_at(7, 4).unwrap().glyph, 179);
}
