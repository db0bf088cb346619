use gui_helpers::color::Rgb;
use gui_helpers::console::{Cell, GridConsole};
use gui_helpers::draw::{draw_box, draw_box_double};

fn glyph_at(g: &GridConsole, x: usize, y: usize) -> u8 {
    g.cell_at(x, y).unwrap().glyph
}

fn cell(g: &GridConsole, x: usize, y: usize) -> Cell {
    g.cell_at(x, y).unwrap()
}

#[test]
fn grid_starts_blank_with_dims() {
    let g = GridConsole::new(3, 2);
    for y in 0..2 {
        for x in 0..3 {
            let c = cell(&g, x, y);
            assert_eq!(c.glyph, 32);
            assert_eq!(c.fg, Rgb::new(255, 255, 255));
            assert_eq!(c.bg, Rgb::new(0, 0, 0));
        }
    }
    assert_eq!(g.cell_at(3, 0), None);
    assert_eq!(g.cell_at(0, 2), None);
}

#[test]
fn box_single_frame_and_interior() {
    let mut g = GridConsole::new(10, 8);
    let fg = Rgb::new(200, 10, 10);
    let bg = Rgb::new(0, 0, 50);
    draw_box(&mut g, 1, 1, 5, 4, fg, bg);

    // corners: single-line glyph codes
    assert_eq!(glyph_at(&g, 1, 1), 218);
    assert_eq!(glyph_at(&g, 5, 1), 191);
    assert_eq!(glyph_at(&g, 1, 4), 192);
    assert_eq!(glyph_at(&g, 5, 4), 217);
    assert_eq!(cell(&g, 1, 1).fg, fg);
    assert_eq!(cell(&g, 1, 1).bg, bg);

    // top and bottom edges, corners excluded
    for x in 2..=4 {
        assert_eq!(glyph_at(&g, x, 1), 196);
        assert_eq!(glyph_at(&g, x, 4), 196);
        assert_eq!(cell(&g, x, 1).fg, fg);
    }
    // left and right edges, corners excluded
    for y in 2..=3 {
        assert_eq!(glyph_at(&g, 1, y), 179);
        assert_eq!(glyph_at(&g, 5, y), 179);
        assert_eq!(cell(&g, 5, y).bg, bg);
    }
    // interior: cleared to a space in white on black, not the caller's colors
    for y in 2..=3 {
        for x in 2..=4 {
            let c = cell(&g, x, y);
            assert_eq!(c.glyph, 32);
            assert_eq!(c.fg, Rgb::new(255, 255, 255));
            assert_eq!(c.bg, Rgb::new(0, 0, 0));
        }
    }
}

#[test]
fn box_double_uses_double_glyphs() {
    let mut g = GridConsole::new(10, 8);
    let fg = Rgb::new(1, 2, 3);
    let bg = Rgb::new(4, 5, 6);
    draw_box_double(&mut g, 0, 0, 6, 5, fg, bg);
    assert_eq!(glyph_at(&g, 0, 0), 201);
    assert_eq!(glyph_at(&g, 5, 0), 187);
    assert_eq!(glyph_at(&g, 0, 4), 200);
    assert_eq!(glyph_at(&g, 5, 4), 188);
    for x in 1..=4 {
        assert_eq!(glyph_at(&g, x, 0), 205);
        assert_eq!(glyph_at(&g, x, 4), 205);
    }
    for y in 1..=3 {
        assert_eq!(glyph_at(&g, 0, y), 186);
        assert_eq!(glyph_at(&g, 5, y), 186);
    }
}

#[test]
fn box_leaves_outside_untouched() {
    let mut g = GridConsole::new(10, 10);
    draw_box(&mut g, 2, 2, 4, 3, Rgb::new(9, 9, 9), Rgb::new(7, 7, 7));
    for y in 0..10 {
        for x in 0..10 {
            if x < 2 || x > 5 || y < 2 || y > 4 {
                let c = cell(&g, x, y);
                assert_eq!(c.glyph, 32);
                assert_eq!(c.fg, Rgb::new(255, 255, 255));
                assert_eq!(c.bg, Rgb::new(0, 0, 0));
            }
        }
    }
}

#[test]
fn box_one_by_one_ends_with_last_corner() {
    let mut g = GridConsole::new(6, 6);
    let fg = Rgb::new(10, 20, 30);
    let bg = Rgb::new(40, 50, 60);
    draw_box(&mut g, 3, 3, 1, 1, fg, bg);
    // all four corner writes land on the same cell; the bottom-right wins
    assert_eq!(glyph_at(&g, 3, 3), 217);
    assert_eq!(cell(&g, 3, 3).fg, fg);
}

#[test]
fn box_clips_at_negative_origin() {
    let mut g = GridConsole::new(5, 5);
    let fg = Rgb::new(11, 12, 13);
    let bg = Rgb::new(14, 15, 16);
    draw_box(&mut g, -2, -2, 5, 5, fg, bg);
    // the box spans x, y in -2..=2; only its bottom-right part is visible
    assert_eq!(glyph_at(&g, 2, 2), 217);
    assert_eq!(glyph_at(&g, 0, 2), 196);
    assert_eq!(glyph_at(&g, 1, 2), 196);
    assert_eq!(glyph_at(&g, 2, 0), 179);
    assert_eq!(glyph_at(&g, 2, 1), 179);
    // visible interior cells are cleared
    for y in 0..=1 {
        for x in 0..=1 {
            assert_eq!(glyph_at(&g, x, y), 32);
        }
    }
    // cells past the box are untouched
    for i in 0..5 {
        assert_eq!(glyph_at(&g, 3, i), 32);
        assert_eq!(cell(&g, 3, i).fg, Rgb::new(255, 255, 255));
        assert_eq!(glyph_at(&g, 4, i), 32);
        assert_eq!(glyph_at(&g, i, 3), 32);
        assert_eq!(glyph_at(&g, i, 4), 32);
    }
}

#[test]
fn box_zero_extent_writes_only_top_left_corner() {
    let mut g = GridConsole::new(4, 4);
    let fg = Rgb::new(1, 1, 1);
    let bg = Rgb::new(2, 2, 2);
    draw_box(&mut g, 0, 0, 0, 0, fg, bg);
    // no clearing; three corners fall at negative coordinates and are
    // clipped, the top-left corner write still lands at the origin
    assert_eq!(glyph_at(&g, 0, 0), 218);
    for y in 0..4 {
        for x in 0..4 {
            if !(x == 0 && y == 0) {
                assert_eq!(glyph_at(&g, x, y), 32);
            }
        }
    }
}
