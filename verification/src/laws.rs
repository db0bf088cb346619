use vstd::prelude::*;
use crate::color::{Rgb, white, black};
use crate::console::{
    Cell, CellWrite, cell_after, touches, write_at, lemma_cell_after_append,
    lemma_cell_after_push, lemma_cell_after_untouched, lemma_touches_append, lemma_replay,
};
use crate::draw::{
    BoxDef, GLYPH_DENSE_SHADE, GLYPH_LIGHT_SHADE, GLYPH_SPACE, box_writes, clear_writes,
    corner_writes, frame_writes, hbar_dense, hbar_writes, run_down_writes, run_right_writes,
    vbar_dense, vbar_writes,
};

verus! {

/// A rightward run touches exactly the `count` cells of its row segment.
proof fn lemma_run_right_touch(
    x0: int,
    y: int,
    count: int,
    fg: Rgb,
    bg: Rgb,
    glyph: u8,
    px: int,
    py: int,
)
    ensures
        touches(run_right_writes(x0, y, count, fg, bg, glyph), px, py) <==> (py == y && x0 <= px
            < x0 + count),
{
    let s = run_right_writes(x0, y, count, fg, bg, glyph);
    if count > 0 {
        if py == y && x0 <= px < x0 + count {
            assert(s[px - x0] == write_at(x0 + (px - x0), y, fg, bg, glyph));
            assert(touches(s, px, py));
        }
        if touches(s, px, py) {
            let i = choose|i: int| 0 <= i < s.len() && s[i].x == px && s[i].y == py;
            assert(s[i] == write_at(x0 + i, y, fg, bg, glyph));
        }
    }
}

/// A downward run touches exactly the `count` cells of its column segment.
proof fn lemma_run_down_touch(
    x: int,
    y0: int,
    count: int,
    fg: Rgb,
    bg: Rgb,
    glyph: u8,
    px: int,
    py: int,
)
    ensures
        touches(run_down_writes(x, y0, count, fg, bg, glyph), px, py) <==> (px == x && y0 <= py
            < y0 + count),
{
    let s = run_down_writes(x, y0, count, fg, bg, glyph);
    if count > 0 {
        if px == x && y0 <= py < y0 + count {
            assert(s[py - y0] == write_at(x, y0 + (py - y0), fg, bg, glyph));
            assert(touches(s, px, py));
        }
        if touches(s, px, py) {
            let i = choose|i: int| 0 <= i < s.len() && s[i].x == px && s[i].y == py;
            assert(s[i] == write_at(x, y0 + i, fg, bg, glyph));
        }
    }
}

/// The clearing pass touches exactly the cells of its rectangle.
proof fn lemma_clear_touch(sx: int, sy: int, width: int, rows: int, px: int, py: int)
    ensures
        touches(clear_writes(sx, sy, width, rows), px, py) <==> (sx <= px < sx + width && sy <= py
            < sy + rows),
    decreases rows,
{
    if rows > 0 {
        lemma_clear_touch(sx, sy, width, rows - 1, px, py);
        lemma_touches_append(
            clear_writes(sx, sy, width, rows - 1),
            run_right_writes(sx, sy + rows - 1, width, white(), black(), GLYPH_SPACE),
            px,
            py,
        );
        lemma_run_right_touch(sx, sy + rows - 1, width, white(), black(), GLYPH_SPACE, px, py);
    }
}

/// The clearing pass writes one cell per cell of the rectangle.
proof fn lemma_clear_writes_len(sx: int, sy: int, width: int, rows: int)
    requires
        0 <= width,
        0 <= rows,
    ensures
        clear_writes(sx, sy, width, rows).len() == width * rows,
    decreases rows,
{
    if rows > 0 {
        lemma_clear_writes_len(sx, sy, width, rows - 1);
        assert(width * rows == width * (rows - 1) + width) by (nonlinear_arith);
    } else {
        assert(width * 0 == 0);
    }
}

/// How much one box call writes: first a clearing pass of exactly
/// `width * height` cells, then a frame pass of exactly
/// `2 * width + 2 * height - 4` corner and edge cells, corners counted once
/// each.
pub proof fn lemma_box_write_counts(
    sx: int,
    sy: int,
    width: int,
    height: int,
    fg: Rgb,
    bg: Rgb,
    def: BoxDef,
)
    requires
        2 <= width,
        2 <= height,
    ensures
        box_writes(sx, sy, width, height, fg, bg, def) == clear_writes(sx, sy, width, height)
            + frame_writes(sx, sy, width, height, fg, bg, def),
        clear_writes(sx, sy, width, height).len() == width * height,
        frame_writes(sx, sy, width, height, fg, bg, def).len() == 2 * width + 2 * height - 4,
{
    lemma_clear_writes_len(sx, sy, width, height);
    assert(corner_writes(sx, sy, width, height, fg, bg, def).len() == 4);
    assert(run_right_writes(sx + 1, sy, width - 2, fg, bg, def.hor).len() == width - 2);
    assert(run_right_writes(sx + 1, sy + height - 1, width - 2, fg, bg, def.hor).len() == width
        - 2);
    assert(run_down_writes(sx, sy + 1, height - 2, fg, bg, def.vert).len() == height - 2);
    assert(run_down_writes(sx + width - 1, sy + 1, height - 2, fg, bg, def.vert).len() == height
        - 2);
}

/// The edge passes of a box miss all four corner cells, so a corner cell's
/// final value is decided by the corner pass.
proof fn lemma_box_corner_cell(
    base: Seq<CellWrite>,
    sx: int,
    sy: int,
    width: int,
    height: int,
    fg: Rgb,
    bg: Rgb,
    def: BoxDef,
    px: int,
    py: int,
)
    requires
        2 <= width,
        2 <= height,
        px == sx || px == sx + width - 1,
        py == sy || py == sy + height - 1,
    ensures
        cell_after(base + box_writes(sx, sy, width, height, fg, bg, def), px, py) == cell_after(
            (base + clear_writes(sx, sy, width, height)) + corner_writes(
                sx,
                sy,
                width,
                height,
                fg,
                bg,
                def,
            ),
            px,
            py,
        ),
{
    let a0 = base + clear_writes(sx, sy, width, height);
    let co = corner_writes(sx, sy, width, height, fg, bg, def);
    let te = run_right_writes(sx + 1, sy, width - 2, fg, bg, def.hor);
    let be = run_right_writes(sx + 1, sy + height - 1, width - 2, fg, bg, def.hor);
    let le = run_down_writes(sx, sy + 1, height - 2, fg, bg, def.vert);
    let re = run_down_writes(sx + width - 1, sy + 1, height - 2, fg, bg, def.vert);
    assert(base + box_writes(sx, sy, width, height, fg, bg, def) =~= ((((a0 + co) + te) + be) + le)
        + re);
    lemma_run_right_touch(sx + 1, sy, width - 2, fg, bg, def.hor, px, py);
    lemma_run_right_touch(sx + 1, sy + height - 1, width - 2, fg, bg, def.hor, px, py);
    lemma_run_down_touch(sx, sy + 1, height - 2, fg, bg, def.vert, px, py);
    lemma_run_down_touch(sx + width - 1, sy + 1, height - 2, fg, bg, def.vert, px, py);
    lemma_cell_after_untouched((((a0 + co) + te) + be) + le, re, px, py);
    lemma_cell_after_untouched(((a0 + co) + te) + be, le, px, py);
    lemma_cell_after_untouched((a0 + co) + te, be, px, py);
    lemma_cell_after_untouched(a0 + co, te, px, py);
}

/// After a box is drawn over any earlier writes, each of its four corner
/// cells holds that style's corner glyph in the caller's colors: top left,
/// top right, bottom left and bottom right in turn.
pub proof fn lemma_box_corner_glyphs(
    base: Seq<CellWrite>,
    sx: int,
    sy: int,
    width: int,
    height: int,
    fg: Rgb,
    bg: Rgb,
    def: BoxDef,
)
    requires
        2 <= width,
        2 <= height,
    ensures
        cell_after(base + box_writes(sx, sy, width, height, fg, bg, def), sx, sy) == (Cell {
            glyph: def.top_left,
            fg,
            bg,
        }),
        cell_after(base + box_writes(sx, sy, width, height, fg, bg, def), sx + width - 1, sy) == (
        Cell { glyph: def.top_right, fg, bg }),
        cell_after(base + box_writes(sx, sy, width, height, fg, bg, def), sx, sy + height - 1) == (
        Cell { glyph: def.bottom_left, fg, bg }),
        cell_after(
            base + box_writes(sx, sy, width, height, fg, bg, def),
            sx + width - 1,
            sy + height - 1,
        ) == (Cell { glyph: def.bottom_right, fg, bg }),
{
    let a0 = base + clear_writes(sx, sy, width, height);
    let co = corner_writes(sx, sy, width, height, fg, bg, def);
    let c1 = write_at(sx, sy, fg, bg, def.top_left);
    let c2 = write_at(sx + width - 1, sy, fg, bg, def.top_right);
    let c3 = write_at(sx, sy + height - 1, fg, bg, def.bottom_left);
    let c4 = write_at(sx + width - 1, sy + height - 1, fg, bg, def.bottom_right);
    assert(a0 + co =~= a0.push(c1).push(c2).push(c3).push(c4));

    lemma_box_corner_cell(base, sx, sy, width, height, fg, bg, def, sx, sy);
    lemma_cell_after_push(a0.push(c1).push(c2).push(c3), c4, sx, sy);
    lemma_cell_after_push(a0.push(c1).push(c2), c3, sx, sy);
    lemma_cell_after_push(a0.push(c1), c2, sx, sy);
    lemma_cell_after_push(a0, c1, sx, sy);

    lemma_box_corner_cell(base, sx, sy, width, height, fg, bg, def, sx + width - 1, sy);
    lemma_cell_after_push(a0.push(c1).push(c2).push(c3), c4, sx + width - 1, sy);
    lemma_cell_after_push(a0.push(c1).push(c2), c3, sx + width - 1, sy);
    lemma_cell_after_push(a0.push(c1), c2, sx + width - 1, sy);

    lemma_box_corner_cell(base, sx, sy, width, height, fg, bg, def, sx, sy + height - 1);
    lemma_cell_after_push(a0.push(c1).push(c2).push(c3), c4, sx, sy + height - 1);
    lemma_cell_after_push(a0.push(c1).push(c2), c3, sx, sy + height - 1);

    lemma_box_corner_cell(
        base,
        sx,
        sy,
        width,
        height,
        fg,
        bg,
        def,
        sx + width - 1,
        sy + height - 1,
    );
    lemma_cell_after_push(
        a0.push(c1).push(c2).push(c3),
        c4,
        sx + width - 1,
        sy + height - 1,
    );
}

/// In a sequence of writes walking right one cell at a time along row `sy`,
/// the write for column `sx + i` is the only one to hit that cell, so it
/// decides the cell.
proof fn lemma_row_seq_cell(s: Seq<CellWrite>, sx: int, sy: int, i: int)
    requires
        forall|j: int| 0 <= j < s.len() ==> (#[trigger] s[j]).x == sx + j && s[j].y == sy,
        0 <= i < s.len(),
    ensures
        cell_after(s, sx + i, sy) == s[i].cell,
    decreases s.len(),
{
    if i < s.len() - 1 {
        assert(s.drop_last()[i] == s[i]);
        lemma_row_seq_cell(s.drop_last(), sx, sy, i);
    }
}

/// The columnwise counterpart of `lemma_row_seq_cell`.
proof fn lemma_col_seq_cell(s: Seq<CellWrite>, sx: int, sy: int, i: int)
    requires
        forall|j: int| 0 <= j < s.len() ==> (#[trigger] s[j]).x == sx && s[j].y == sy + j,
        0 <= i < s.len(),
    ensures
        cell_after(s, sx, sy + i) == s[i].cell,
    decreases s.len(),
{
    if i < s.len() - 1 {
        assert(s.drop_last()[i] == s[i]);
        lemma_col_seq_cell(s.drop_last(), sx, sy, i);
    }
}

/// After the clearing pass alone, every cell of its rectangle holds a space
/// in white on black.
proof fn lemma_clear_cell(sx: int, sy: int, width: int, rows: int, px: int, py: int)
    requires
        sx <= px < sx + width,
        sy <= py < sy + rows,
    ensures
        cell_after(clear_writes(sx, sy, width, rows), px, py) == (Cell {
            glyph: GLYPH_SPACE,
            fg: white(),
            bg: black(),
        }),
    decreases rows,
{
    let prefix = clear_writes(sx, sy, width, rows - 1);
    let row = run_right_writes(sx, sy + rows - 1, width, white(), black(), GLYPH_SPACE);
    lemma_cell_after_append(prefix, row, px, py);
    lemma_run_right_touch(sx, sy + rows - 1, width, white(), black(), GLYPH_SPACE, px, py);
    if py == sy + rows - 1 {
        assert(forall|j: int|
            0 <= j < row.len() ==> (#[trigger] row[j]).x == sx + j && row[j].y == py);
        lemma_row_seq_cell(row, sx, py, px - sx);
        assert(row[px - sx] == write_at(px, py, white(), black(), GLYPH_SPACE));
    } else {
        lemma_clear_cell(sx, sy, width, rows - 1, px, py);
    }
}

/// The corner pass misses any cell that is not one of the four corners.
proof fn lemma_corner_miss(
    sx: int,
    sy: int,
    width: int,
    height: int,
    fg: Rgb,
    bg: Rgb,
    def: BoxDef,
    px: int,
    py: int,
)
    requires
        !((px == sx || px == sx + width - 1) && (py == sy || py == sy + height - 1)),
    ensures
        !touches(corner_writes(sx, sy, width, height, fg, bg, def), px, py),
{
    let co = corner_writes(sx, sy, width, height, fg, bg, def);
    if touches(co, px, py) {
        let i = choose|i: int| 0 <= i < co.len() && co[i].x == px && co[i].y == py;
        assert(co[0] == write_at(sx, sy, fg, bg, def.top_left));
        assert(co[1] == write_at(sx + width - 1, sy, fg, bg, def.top_right));
        assert(co[2] == write_at(sx, sy + height - 1, fg, bg, def.bottom_left));
        assert(co[3] == write_at(sx + width - 1, sy + height - 1, fg, bg, def.bottom_right));
    }
}

/// After a box is drawn, every cell strictly inside its frame holds a space
/// in white on black: the clearing pass decides the interior, whatever colors
/// the caller passed.
pub proof fn lemma_box_interior(
    base: Seq<CellWrite>,
    sx: int,
    sy: int,
    width: int,
    height: int,
    fg: Rgb,
    bg: Rgb,
    def: BoxDef,
    px: int,
    py: int,
)
    requires
        sx < px < sx + width - 1,
        sy < py < sy + height - 1,
    ensures
        cell_after(base + box_writes(sx, sy, width, height, fg, bg, def), px, py) == (Cell {
            glyph: GLYPH_SPACE,
            fg: white(),
            bg: black(),
        }),
{
    let cw = clear_writes(sx, sy, width, height);
    let a0 = base + cw;
    let co = corner_writes(sx, sy, width, height, fg, bg, def);
    let te = run_right_writes(sx + 1, sy, width - 2, fg, bg, def.hor);
    let be = run_right_writes(sx + 1, sy + height - 1, width - 2, fg, bg, def.hor);
    let le = run_down_writes(sx, sy + 1, height - 2, fg, bg, def.vert);
    let re = run_down_writes(sx + width - 1, sy + 1, height - 2, fg, bg, def.vert);
    assert(base + box_writes(sx, sy, width, height, fg, bg, def) =~= ((((a0 + co) + te) + be) + le)
        + re);
    lemma_run_right_touch(sx + 1, sy, width - 2, fg, bg, def.hor, px, py);
    lemma_run_right_touch(sx + 1, sy + height - 1, width - 2, fg, bg, def.hor, px, py);
    lemma_run_down_touch(sx, sy + 1, height - 2, fg, bg, def.vert, px, py);
    lemma_run_down_touch(sx + width - 1, sy + 1, height - 2, fg, bg, def.vert, px, py);
    lemma_corner_miss(sx, sy, width, height, fg, bg, def, px, py);
    lemma_cell_after_untouched((((a0 + co) + te) + be) + le, re, px, py);
    lemma_cell_after_untouched(((a0 + co) + te) + be, le, px, py);
    lemma_cell_after_untouched((a0 + co) + te, be, px, py);
    lemma_cell_after_untouched(a0 + co, te, px, py);
    lemma_cell_after_untouched(a0, co, px, py);
    lemma_cell_after_append(base, cw, px, py);
    lemma_clear_touch(sx, sy, width, height, px, py);
    lemma_clear_cell(sx, sy, width, height, px, py);
}

/// After a box is drawn, every top and bottom edge cell strictly between the
/// corners holds the style's horizontal edge glyph in the caller's colors.
pub proof fn lemma_box_horizontal_edges(
    base: Seq<CellWrite>,
    sx: int,
    sy: int,
    width: int,
    height: int,
    fg: Rgb,
    bg: Rgb,
    def: BoxDef,
    px: int,
)
    requires
        2 <= height,
        sx < px < sx + width - 1,
    ensures
        cell_after(base + box_writes(sx, sy, width, height, fg, bg, def), px, sy) == (Cell {
            glyph: def.hor,
            fg,
            bg,
        }),
        cell_after(base + box_writes(sx, sy, width, height, fg, bg, def), px, sy + height - 1) == (
        Cell { glyph: def.hor, fg, bg }),
{
    let a0 = base + clear_writes(sx, sy, width, height);
    let co = corner_writes(sx, sy, width, height, fg, bg, def);
    let te = run_right_writes(sx + 1, sy, width - 2, fg, bg, def.hor);
    let be = run_right_writes(sx + 1, sy + height - 1, width - 2, fg, bg, def.hor);
    let le = run_down_writes(sx, sy + 1, height - 2, fg, bg, def.vert);
    let re = run_down_writes(sx + width - 1, sy + 1, height - 2, fg, bg, def.vert);
    assert(base + box_writes(sx, sy, width, height, fg, bg, def) =~= ((((a0 + co) + te) + be) + le)
        + re);
    assert(forall|j: int|
        0 <= j < te.len() ==> (#[trigger] te[j]).x == sx + 1 + j && te[j].y == sy);
    assert(forall|j: int|
        0 <= j < be.len() ==> (#[trigger] be[j]).x == sx + 1 + j && be[j].y == sy + height - 1);

    // top edge: the later passes miss the row, the top edge pass decides it
    lemma_run_right_touch(sx + 1, sy + height - 1, width - 2, fg, bg, def.hor, px, sy);
    lemma_run_down_touch(sx, sy + 1, height - 2, fg, bg, def.vert, px, sy);
    lemma_run_down_touch(sx + width - 1, sy + 1, height - 2, fg, bg, def.vert, px, sy);
    lemma_cell_after_untouched((((a0 + co) + te) + be) + le, re, px, sy);
    lemma_cell_after_untouched(((a0 + co) + te) + be, le, px, sy);
    lemma_cell_after_untouched((a0 + co) + te, be, px, sy);
    lemma_cell_after_append((a0 + co), te, px, sy);
    lemma_run_right_touch(sx + 1, sy, width - 2, fg, bg, def.hor, px, sy);
    lemma_row_seq_cell(te, sx + 1, sy, px - (sx + 1));
    assert(te[px - (sx + 1)] == write_at(px, sy, fg, bg, def.hor));

    // bottom edge: the vertical passes miss the row, the bottom edge pass
    // decides it
    lemma_run_down_touch(sx, sy + 1, height - 2, fg, bg, def.vert, px, sy + height - 1);
    lemma_run_down_touch(sx + width - 1, sy + 1, height - 2, fg, bg, def.vert, px, sy + height - 1);
    lemma_cell_after_untouched((((a0 + co) + te) + be) + le, re, px, sy + height - 1);
    lemma_cell_after_untouched(((a0 + co) + te) + be, le, px, sy + height - 1);
    lemma_cell_after_append((a0 + co) + te, be, px, sy + height - 1);
    lemma_run_right_touch(sx + 1, sy + height - 1, width - 2, fg, bg, def.hor, px, sy + height - 1);
    lemma_row_seq_cell(be, sx + 1, sy + height - 1, px - (sx + 1));
    assert(be[px - (sx + 1)] == write_at(px, sy + height - 1, fg, bg, def.hor));
}

/// After a box is drawn, every left and right edge cell strictly between the
/// corners holds the style's vertical edge glyph in the caller's colors.
pub proof fn lemma_box_vertical_edges(
    base: Seq<CellWrite>,
    sx: int,
    sy: int,
    width: int,
    height: int,
    fg: Rgb,
    bg: Rgb,
    def: BoxDef,
    py: int,
)
    requires
        2 <= width,
        sy < py < sy + height - 1,
    ensures
        cell_after(base + box_writes(sx, sy, width, height, fg, bg, def), sx, py) == (Cell {
            glyph: def.vert,
            fg,
            bg,
        }),
        cell_after(base + box_writes(sx, sy, width, height, fg, bg, def), sx + width - 1, py) == (
        Cell { glyph: def.vert, fg, bg }),
{
    let a0 = base + clear_writes(sx, sy, width, height);
    let co = corner_writes(sx, sy, width, height, fg, bg, def);
    let te = run_right_writes(sx + 1, sy, width - 2, fg, bg, def.hor);
    let be = run_right_writes(sx + 1, sy + height - 1, width - 2, fg, bg, def.hor);
    let le = run_down_writes(sx, sy + 1, height - 2, fg, bg, def.vert);
    let re = run_down_writes(sx + width - 1, sy + 1, height - 2, fg, bg, def.vert);
    assert(base + box_writes(sx, sy, width, height, fg, bg, def) =~= ((((a0 + co) + te) + be) + le)
        + re);
    assert(forall|j: int|
        0 <= j < le.len() ==> (#[trigger] le[j]).x == sx && le[j].y == sy + 1 + j);
    assert(forall|j: int|
        0 <= j < re.len() ==> (#[trigger] re[j]).x == sx + width - 1 && re[j].y == sy + 1 + j);

    // left edge: the right edge pass misses the column, the left edge pass
    // decides it
    lemma_run_down_touch(sx + width - 1, sy + 1, height - 2, fg, bg, def.vert, sx, py);
    lemma_cell_after_untouched((((a0 + co) + te) + be) + le, re, sx, py);
    lemma_cell_after_append(((a0 + co) + te) + be, le, sx, py);
    lemma_run_down_touch(sx, sy + 1, height - 2, fg, bg, def.vert, sx, py);
    lemma_col_seq_cell(le, sx, sy + 1, py - (sy + 1));
    assert(le[py - (sy + 1)] == write_at(sx, py, fg, bg, def.vert));

    // right edge: the last pass decides it outright
    lemma_cell_after_append((((a0 + co) + te) + be) + le, re, sx + width - 1, py);
    lemma_run_down_touch(sx + width - 1, sy + 1, height - 2, fg, bg, def.vert, sx + width - 1, py);
    lemma_col_seq_cell(re, sx + width - 1, sy + 1, py - (sy + 1));
    assert(re[py - (sy + 1)] == write_at(sx + width - 1, py, fg, bg, def.vert));
}

/// After a horizontal bar is drawn, each of its `width` cells holds the dense
/// shade glyph inside the fill boundary and the light shade glyph outside it,
/// in the caller's colors.
pub proof fn lemma_hbar_cells(
    base: Seq<CellWrite>,
    sx: int,
    sy: int,
    width: int,
    n: int,
    max: int,
    fg: Rgb,
    bg: Rgb,
    i: int,
)
    requires
        0 <= i < width,
    ensures
        cell_after(base + hbar_writes(sx, sy, width, n, max, fg, bg), sx + i, sy) == (Cell {
            glyph: if hbar_dense(i, n, max, width) {
                GLYPH_DENSE_SHADE
            } else {
                GLYPH_LIGHT_SHADE
            },
            fg,
            bg,
        }),
{
    let s = hbar_writes(sx, sy, width, n, max, fg, bg);
    assert(forall|j: int| 0 <= j < s.len() ==> (#[trigger] s[j]).x == sx + j && s[j].y == sy);
    lemma_cell_after_append(base, s, sx + i, sy);
    assert(s[i].x == sx + i && s[i].y == sy);
    assert(touches(s, sx + i, sy));
    lemma_row_seq_cell(s, sx, sy, i);
}

/// After a vertical bar is drawn, each of its `height` cells holds the light
/// shade glyph above the fill boundary and the dense shade glyph at and below
/// it, in the caller's colors.
pub proof fn lemma_vbar_cells(
    base: Seq<CellWrite>,
    sx: int,
    sy: int,
    height: int,
    n: int,
    max: int,
    fg: Rgb,
    bg: Rgb,
    i: int,
)
    requires
        0 <= i < height,
    ensures
        cell_after(base + vbar_writes(sx, sy, height, n, max, fg, bg), sx, sy + i) == (Cell {
            glyph: if vbar_dense(i, n, max, height) {
                GLYPH_DENSE_SHADE
            } else {
                GLYPH_LIGHT_SHADE
            },
            fg,
            bg,
        }),
{
    let s = vbar_writes(sx, sy, height, n, max, fg, bg);
    assert(forall|j: int| 0 <= j < s.len() ==> (#[trigger] s[j]).x == sx && s[j].y == sy + j);
    lemma_cell_after_append(base, s, sx, sy + i);
    assert(s[i].x == sx && s[i].y == sy + i);
    assert(touches(s, sx, sy + i));
    lemma_col_seq_cell(s, sx, sy, i);
}

/// Drawing a box touches no cell outside its rectangle: any cell outside
/// `[sx, sx + width) x [sy, sy + height)` holds exactly what it held before
/// the call.
pub proof fn lemma_box_independence(
    base: Seq<CellWrite>,
    sx: int,
    sy: int,
    width: int,
    height: int,
    fg: Rgb,
    bg: Rgb,
    def: BoxDef,
    px: int,
    py: int,
)
    requires
        1 <= width,
        1 <= height,
        !(sx <= px < sx + width && sy <= py < sy + height),
    ensures
        cell_after(base + box_writes(sx, sy, width, height, fg, bg, def), px, py) == cell_after(
            base,
            px,
            py,
        ),
{
    let cw = clear_writes(sx, sy, width, height);
    let co = corner_writes(sx, sy, width, height, fg, bg, def);
    let te = run_right_writes(sx + 1, sy, width - 2, fg, bg, def.hor);
    let be = run_right_writes(sx + 1, sy + height - 1, width - 2, fg, bg, def.hor);
    let le = run_down_writes(sx, sy + 1, height - 2, fg, bg, def.vert);
    let re = run_down_writes(sx + width - 1, sy + 1, height - 2, fg, bg, def.vert);
    lemma_clear_touch(sx, sy, width, height, px, py);
    lemma_run_right_touch(sx + 1, sy, width - 2, fg, bg, def.hor, px, py);
    lemma_run_right_touch(sx + 1, sy + height - 1, width - 2, fg, bg, def.hor, px, py);
    lemma_run_down_touch(sx, sy + 1, height - 2, fg, bg, def.vert, px, py);
    lemma_run_down_touch(sx + width - 1, sy + 1, height - 2, fg, bg, def.vert, px, py);
    assert(!touches(co, px, py)) by {
        if touches(co, px, py) {
            let i = choose|i: int| 0 <= i < co.len() && co[i].x == px && co[i].y == py;
            assert(co[0] == write_at(sx, sy, fg, bg, def.top_left));
            assert(co[1] == write_at(sx + width - 1, sy, fg, bg, def.top_right));
            assert(co[2] == write_at(sx, sy + height - 1, fg, bg, def.bottom_left));
            assert(co[3] == write_at(sx + width - 1, sy + height - 1, fg, bg, def.bottom_right));
        }
    }
    lemma_touches_append(co, te, px, py);
    lemma_touches_append(co + te, be, px, py);
    lemma_touches_append((co + te) + be, le, px, py);
    lemma_touches_append(((co + te) + be) + le, re, px, py);
    lemma_touches_append(cw, frame_writes(sx, sy, width, height, fg, bg, def), px, py);
    lemma_cell_after_untouched(base, box_writes(sx, sy, width, height, fg, bg, def), px, py);
}

/// Drawing the same box twice in a row leaves every cell exactly as it stood
/// after the first call: the operation carries no hidden state.
pub proof fn lemma_box_idempotent(
    base: Seq<CellWrite>,
    sx: int,
    sy: int,
    width: int,
    height: int,
    fg: Rgb,
    bg: Rgb,
    def: BoxDef,
    px: int,
    py: int,
)
    ensures
        cell_after(
            base + box_writes(sx, sy, width, height, fg, bg, def) + box_writes(
                sx,
                sy,
                width,
                height,
                fg,
                bg,
                def,
            ),
            px,
            py,
        ) == cell_after(base + box_writes(sx, sy, width, height, fg, bg, def), px, py),
{
    lemma_replay(base, box_writes(sx, sy, width, height, fg, bg, def), px, py);
}

/// Drawing the same horizontal bar twice in a row leaves every cell exactly
/// as it stood after the first call.
pub proof fn lemma_hbar_idempotent(
    base: Seq<CellWrite>,
    sx: int,
    sy: int,
    width: int,
    n: int,
    max: int,
    fg: Rgb,
    bg: Rgb,
    px: int,
    py: int,
)
    ensures
        cell_after(
            base + hbar_writes(sx, sy, width, n, max, fg, bg) + hbar_writes(
                sx,
                sy,
                width,
                n,
                max,
                fg,
                bg,
            ),
            px,
            py,
        ) == cell_after(base + hbar_writes(sx, sy, width, n, max, fg, bg), px, py),
{
    lemma_replay(base, hbar_writes(sx, sy, width, n, max, fg, bg), px, py);
}

/// Drawing the same vertical bar twice in a row leaves every cell exactly as
/// it stood after the first call.
pub proof fn lemma_vbar_idempotent(
    base: Seq<CellWrite>,
    sx: int,
    sy: int,
    height: int,
    n: int,
    max: int,
    fg: Rgb,
    bg: Rgb,
    px: int,
    py: int,
)
    ensures
        cell_after(
            base + vbar_writes(sx, sy, height, n, max, fg, bg) + vbar_writes(
                sx,
                sy,
                height,
                n,
                max,
                fg,
                bg,
            ),
            px,
            py,
        ) == cell_after(base + vbar_writes(sx, sy, height, n, max, fg, bg), px, py),
{
    lemma_replay(base, vbar_writes(sx, sy, height, n, max, fg, bg), px, py);
}

} // verus!
