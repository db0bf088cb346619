use vstd::prelude::*;
use vstd::math::abs;
use crate::color::{Rgb, white, black};
use crate::console::{Console, CellWrite, write_at};

verus! {

/// Code-page glyph the clearing pass writes: a space.
pub const GLYPH_SPACE: u8 = 32;

/// Code-page glyph for the unfilled part of a bar: light shade.
pub const GLYPH_LIGHT_SHADE: u8 = 176;

/// Code-page glyph for the filled part of a bar: dense shade.
pub const GLYPH_DENSE_SHADE: u8 = 178;

/// The six glyphs one box style draws with: horizontal and vertical edges and
/// the four corners.
#[derive(Clone, Copy, PartialEq, Eq, Structural, Debug)]
pub struct BoxDef {
    pub hor: u8,
    pub vert: u8,
    pub top_left: u8,
    pub top_right: u8,
    pub bottom_left: u8,
    pub bottom_right: u8,
}

/// The single-line box glyph codes.
pub open spec fn single_box_def() -> BoxDef {
    BoxDef { hor: 196, vert: 179, top_left: 218, top_right: 191, bottom_left: 192, bottom_right: 217 }
}

/// The double-line box glyph codes.
pub open spec fn double_box_def() -> BoxDef {
    BoxDef { hor: 205, vert: 186, top_left: 201, top_right: 187, bottom_left: 200, bottom_right: 188 }
}

/// `count` writes of the same glyph walking right from `(x0, y)`; empty when
/// `count` is not positive.
pub open spec fn run_right_writes(x0: int, y: int, count: int, fg: Rgb, bg: Rgb, glyph: u8) -> Seq<
    CellWrite,
> {
    if count <= 0 {
        Seq::empty()
    } else {
        Seq::new(count as nat, |i: int| write_at(x0 + i, y, fg, bg, glyph))
    }
}

/// `count` writes of the same glyph walking down from `(x, y0)`; empty when
/// `count` is not positive.
pub open spec fn run_down_writes(x: int, y0: int, count: int, fg: Rgb, bg: Rgb, glyph: u8) -> Seq<
    CellWrite,
> {
    if count <= 0 {
        Seq::empty()
    } else {
        Seq::new(count as nat, |i: int| write_at(x, y0 + i, fg, bg, glyph))
    }
}

/// The clearing pass of a box: every cell of the first `rows` rows of the
/// rectangle gets a space in white on black, row by row, left to right. The
/// caller's colors play no part in this pass.
pub open spec fn clear_writes(sx: int, sy: int, width: int, rows: int) -> Seq<CellWrite>
    decreases rows,
{
    if rows <= 0 {
        Seq::empty()
    } else {
        clear_writes(sx, sy, width, rows - 1) + run_right_writes(
            sx,
            sy + rows - 1,
            width,
            white(),
            black(),
            GLYPH_SPACE,
        )
    }
}

/// The four corner writes of a box, in the caller's colors: top left, top
/// right, bottom left, bottom right, in that order.
pub open spec fn corner_writes(
    sx: int,
    sy: int,
    width: int,
    height: int,
    fg: Rgb,
    bg: Rgb,
    def: BoxDef,
) -> Seq<CellWrite> {
    seq![
        write_at(sx, sy, fg, bg, def.top_left),
        write_at(sx + width - 1, sy, fg, bg, def.top_right),
        write_at(sx, sy + height - 1, fg, bg, def.bottom_left),
        write_at(sx + width - 1, sy + height - 1, fg, bg, def.bottom_right),
    ]
}

/// The frame pass of a box: the four corners, then the top and bottom edges
/// (the columns strictly between the corners), then the left and right edges
/// (the rows strictly between the corners), all in the caller's colors.
pub open spec fn frame_writes(
    sx: int,
    sy: int,
    width: int,
    height: int,
    fg: Rgb,
    bg: Rgb,
    def: BoxDef,
) -> Seq<CellWrite> {
    corner_writes(sx, sy, width, height, fg, bg, def) + run_right_writes(
        sx + 1,
        sy,
        width - 2,
        fg,
        bg,
        def.hor,
    ) + run_right_writes(sx + 1, sy + height - 1, width - 2, fg, bg, def.hor) + run_down_writes(
        sx,
        sy + 1,
        height - 2,
        fg,
        bg,
        def.vert,
    ) + run_down_writes(sx + width - 1, sy + 1, height - 2, fg, bg, def.vert)
}

/// Everything one box call writes, in order: the clearing pass, then the
/// frame pass. Where cells coincide (degenerate extents), the later write
/// wins on the surface.
pub open spec fn box_writes(
    sx: int,
    sy: int,
    width: int,
    height: int,
    fg: Rgb,
    bg: Rgb,
    def: BoxDef,
) -> Seq<CellWrite> {
    clear_writes(sx, sy, width, height) + frame_writes(sx, sy, width, height, fg, bg, def)
}

/// Integer division truncated toward zero, the rounding an integer cast of a
/// ratio performs.
pub open spec fn trunc_div(a: int, b: int) -> int
    recommends
        b != 0,
{
    if (a < 0) == (b < 0) {
        (abs(a) / abs(b)) as int
    } else {
        -((abs(a) / abs(b)) as int)
    }
}

/// Whether column `x` of a horizontal bar is filled (dense shade). The fill
/// boundary is the fill ratio `n / max` scaled by `width` and truncated toward
/// zero, and the test is inclusive: column 0 is filled whenever the ratio is
/// at least zero. A zero `max` is read as an IEEE division by zero: a positive
/// `n` gives +infinity (every column filled), `n == 0` gives NaN, whose
/// integer cast is zero (column 0 alone filled), and a negative `n` gives
/// -infinity (no column filled).
pub open spec fn hbar_dense(x: int, n: int, max: int, width: int) -> bool {
    if max != 0 {
        x <= trunc_div(n * width, max)
    } else if n > 0 {
        true
    } else if n == 0 {
        x <= 0
    } else {
        false
    }
}

/// Everything one horizontal bar call writes: one cell per column, dense
/// shade inside the fill boundary, light shade outside it.
pub open spec fn hbar_writes(
    sx: int,
    sy: int,
    width: int,
    n: int,
    max: int,
    fg: Rgb,
    bg: Rgb,
) -> Seq<CellWrite> {
    if width <= 0 {
        Seq::empty()
    } else {
        Seq::new(
            width as nat,
            |i: int|
                write_at(
                    sx + i,
                    sy,
                    fg,
                    bg,
                    if hbar_dense(i, n, max, width) {
                        GLYPH_DENSE_SHADE
                    } else {
                        GLYPH_LIGHT_SHADE
                    },
                ),
        )
    }
}

/// Whether row `y` of a vertical bar is filled (dense shade). The fill grows
/// from the bottom upward: rows at or below `height` minus the scaled,
/// truncated fill ratio are filled. A zero `max` is read as an IEEE division
/// by zero, as in `hbar_dense`: a positive `n` fills every row, `n == 0` and a
/// negative `n` fill none.
pub open spec fn vbar_dense(y: int, n: int, max: int, height: int) -> bool {
    if max != 0 {
        y >= height - trunc_div(n * height, max)
    } else if n > 0 {
        true
    } else if n == 0 {
        y >= height
    } else {
        false
    }
}

/// Everything one vertical bar call writes: one cell per row, light shade
/// above the fill boundary, dense shade at and below it.
pub open spec fn vbar_writes(
    sx: int,
    sy: int,
    height: int,
    n: int,
    max: int,
    fg: Rgb,
    bg: Rgb,
) -> Seq<CellWrite> {
    if height <= 0 {
        Seq::empty()
    } else {
        Seq::new(
            height as nat,
            |i: int|
                write_at(
                    sx,
                    sy + i,
                    fg,
                    bg,
                    if vbar_dense(i, n, max, height) {
                        GLYPH_DENSE_SHADE
                    } else {
                        GLYPH_LIGHT_SHADE
                    },
                ),
        )
    }
}

/// Writes `count` cells of one glyph walking right from `(x0, y)`.
fn run_right<C: Console>(console: &mut C, x0: i32, y: i32, count: i32, fg: Rgb, bg: Rgb, glyph: u8)
    requires
        old(console).wf(),
        count > 0 ==> x0 + count - 1 <= i32::MAX,
    ensures
        final(console).wf(),
        final(console).dims() == old(console).dims(),
        final(console).writes() == old(console).writes() + run_right_writes(
            x0 as int,
            y as int,
            count as int,
            fg,
            bg,
            glyph,
        ),
{
    let ghost base = console.writes();
    let ghost dims0 = console.dims();
    let ghost s = run_right_writes(x0 as int, y as int, count as int, fg, bg, glyph);
    proof {
        assert(base + s.take(0) =~= base);
    }
    let mut i: i32 = 0;
    while i < count
        invariant
            console.wf(),
            console.dims() == dims0,
            0 <= i,
            i <= count || i == 0,
            count > 0 ==> x0 + count - 1 <= i32::MAX,
            s == run_right_writes(x0 as int, y as int, count as int, fg, bg, glyph),
            console.writes() == base + s.take(i as int),
        decreases count - i,
    {
        console.set_cell(x0 + i, y, fg, bg, glyph);
        proof {
            assert(s[i as int] == write_at(x0 as int + i as int, y as int, fg, bg, glyph));
            assert(s.take(i as int + 1) =~= s.take(i as int).push(s[i as int]));
            assert((base + s.take(i as int)).push(s[i as int]) =~= base + s.take(i as int + 1));
        }
        i = i + 1;
    }
    proof {
        if count > 0 {
            assert(s.take(count as int) =~= s);
        } else {
            assert(s.take(0) =~= s);
        }
    }
}

/// Writes `count` cells of one glyph walking down from `(x, y0)`.
fn run_down<C: Console>(console: &mut C, x: i32, y0: i32, count: i32, fg: Rgb, bg: Rgb, glyph: u8)
    requires
        old(console).wf(),
        count > 0 ==> y0 + count - 1 <= i32::MAX,
    ensures
        final(console).wf(),
        final(console).dims() == old(console).dims(),
        final(console).writes() == old(console).writes() + run_down_writes(
            x as int,
            y0 as int,
            count as int,
            fg,
            bg,
            glyph,
        ),
{
    let ghost base = console.writes();
    let ghost dims0 = console.dims();
    let ghost s = run_down_writes(x as int, y0 as int, count as int, fg, bg, glyph);
    proof {
        assert(base + s.take(0) =~= base);
    }
    let mut i: i32 = 0;
    while i < count
        invariant
            console.wf(),
            console.dims() == dims0,
            0 <= i,
            i <= count || i == 0,
            count > 0 ==> y0 + count - 1 <= i32::MAX,
            s == run_down_writes(x as int, y0 as int, count as int, fg, bg, glyph),
            console.writes() == base + s.take(i as int),
        decreases count - i,
    {
        console.set_cell(x, y0 + i, fg, bg, glyph);
        proof {
            assert(s[i as int] == write_at(x as int, y0 as int + i as int, fg, bg, glyph));
            assert(s.take(i as int + 1) =~= s.take(i as int).push(s[i as int]));
            assert((base + s.take(i as int)).push(s[i as int]) =~= base + s.take(i as int + 1));
        }
        i = i + 1;
    }
    proof {
        if count > 0 {
            assert(s.take(count as int) =~= s);
        } else {
            assert(s.take(0) =~= s);
        }
    }
}

/// The clearing pass: writes a space in white on black over every cell of the
/// rectangle, row by row.
fn clear_rect<C: Console>(console: &mut C, sx: i32, sy: i32, width: i32, height: i32)
    requires
        old(console).wf(),
        width > 0 ==> sx + width - 1 <= i32::MAX,
        height > 0 ==> sy + height - 1 <= i32::MAX,
    ensures
        final(console).wf(),
        final(console).dims() == old(console).dims(),
        final(console).writes() == old(console).writes() + clear_writes(
            sx as int,
            sy as int,
            width as int,
            height as int,
        ),
{
    let ghost base = console.writes();
    let ghost dims0 = console.dims();
    proof {
        assert(base + clear_writes(sx as int, sy as int, width as int, 0) =~= base);
    }
    let mut j: i32 = 0;
    while j < height
        invariant
            console.wf(),
            console.dims() == dims0,
            0 <= j,
            j <= height || j == 0,
            width > 0 ==> sx + width - 1 <= i32::MAX,
            height > 0 ==> sy + height - 1 <= i32::MAX,
            console.writes() == base + clear_writes(sx as int, sy as int, width as int, j as int),
        decreases height - j,
    {
        let white_fg = Rgb { r: 255, g: 255, b: 255 };
        let black_bg = Rgb { r: 0, g: 0, b: 0 };
        run_right(console, sx, sy + j, width, white_fg, black_bg, GLYPH_SPACE);
        proof {
            let row = run_right_writes(
                sx as int,
                sy as int + j as int,
                width as int,
                white(),
                black(),
                GLYPH_SPACE,
            );
            assert((base + clear_writes(sx as int, sy as int, width as int, j as int)) + row
                =~= base + clear_writes(sx as int, sy as int, width as int, j as int + 1));
        }
        j = j + 1;
    }
    proof {
        if height <= 0 {
            assert(clear_writes(sx as int, sy as int, width as int, height as int)
                == clear_writes(sx as int, sy as int, width as int, 0));
        }
    }
}

/// The shared rasterization routine: clears the rectangle, then draws the
/// frame with the given glyph set.
fn draw_box_def<C: Console>(
    console: &mut C,
    sx: i32,
    sy: i32,
    width: i32,
    height: i32,
    fg: Rgb,
    bg: Rgb,
    def: BoxDef,
)
    requires
        old(console).wf(),
        i32::MIN < sx + width <= i32::MAX,
        i32::MIN < sy + height <= i32::MAX,
    ensures
        final(console).wf(),
        final(console).dims() == old(console).dims(),
        final(console).writes() == old(console).writes() + box_writes(
            sx as int,
            sy as int,
            width as int,
            height as int,
            fg,
            bg,
            def,
        ),
{
    let ghost base = console.writes();
    let ghost sxi = sx as int;
    let ghost syi = sy as int;
    let ghost wi = width as int;
    let ghost hi = height as int;

    clear_rect(console, sx, sy, width, height);
    let ghost after_clear = console.writes();

    console.set_cell(sx, sy, fg, bg, def.top_left);
    console.set_cell(sx + width - 1, sy, fg, bg, def.top_right);
    console.set_cell(sx, sy + height - 1, fg, bg, def.bottom_left);
    console.set_cell(sx + width - 1, sy + height - 1, fg, bg, def.bottom_right);
    let ghost after_corners = console.writes();
    proof {
        assert(after_corners =~= after_clear + corner_writes(sxi, syi, wi, hi, fg, bg, def));
    }

    if width > 2 {
        run_right(console, sx + 1, sy, width - 2, fg, bg, def.hor);
        run_right(console, sx + 1, sy + height - 1, width - 2, fg, bg, def.hor);
    }
    let ghost after_hor = console.writes();
    proof {
        let te = run_right_writes(sxi + 1, syi, wi - 2, fg, bg, def.hor);
        let be = run_right_writes(sxi + 1, syi + hi - 1, wi - 2, fg, bg, def.hor);
        if wi <= 2 {
            assert(after_corners + te + be =~= after_corners);
        }
        assert(after_hor == after_corners + te + be);
    }

    if height > 2 {
        run_down(console, sx, sy + 1, height - 2, fg, bg, def.vert);
        run_down(console, sx + width - 1, sy + 1, height - 2, fg, bg, def.vert);
    }
    let ghost after_vert = console.writes();
    proof {
        let le = run_down_writes(sxi, syi + 1, hi - 2, fg, bg, def.vert);
        let re = run_down_writes(sxi + wi - 1, syi + 1, hi - 2, fg, bg, def.vert);
        if hi <= 2 {
            assert(after_hor + le + re =~= after_hor);
        }
        assert(after_vert == after_hor + le + re);
        assert(after_vert =~= base + box_writes(sxi, syi, wi, hi, fg, bg, def));
    }
}

/// Draws a single-line box: the rectangle of cells is first cleared to spaces
/// in white on black (the caller's colors play no part in that pass), then
/// the frame is drawn over it in the caller's colors.
pub fn draw_box<C: Console>(
    console: &mut C,
    sx: i32,
    sy: i32,
    width: i32,
    height: i32,
    fg: Rgb,
    bg: Rgb,
)
    requires
        old(console).wf(),
        i32::MIN < sx + width <= i32::MAX,
        i32::MIN < sy + height <= i32::MAX,
    ensures
        final(console).wf(),
        final(console).dims() == old(console).dims(),
        final(console).writes() == old(console).writes() + box_writes(
            sx as int,
            sy as int,
            width as int,
            height as int,
            fg,
            bg,
            single_box_def(),
        ),
{
    let def = BoxDef {
        hor: 196,
        vert: 179,
        top_left: 218,
        top_right: 191,
        bottom_left: 192,
        bottom_right: 217,
    };
    draw_box_def(console, sx, sy, width, height, fg, bg, def);
}

/// Draws a double-line box; identical to `draw_box` but for the glyph set.
pub fn draw_box_double<C: Console>(
    console: &mut C,
    sx: i32,
    sy: i32,
    width: i32,
    height: i32,
    fg: Rgb,
    bg: Rgb,
)
    requires
        old(console).wf(),
        i32::MIN < sx + width <= i32::MAX,
        i32::MIN < sy + height <= i32::MAX,
    ensures
        final(console).wf(),
        final(console).dims() == old(console).dims(),
        final(console).writes() == old(console).writes() + box_writes(
            sx as int,
            sy as int,
            width as int,
            height as int,
            fg,
            bg,
            double_box_def(),
        ),
{
    let def = BoxDef {
        hor: 205,
        vert: 186,
        top_left: 201,
        top_right: 187,
        bottom_left: 200,
        bottom_right: 188,
    };
    draw_box_def(console, sx, sy, width, height, fg, bg, def);
}

/// The fill boundary of a bar: `n * len / max`, truncated toward zero,
/// computed without overflow for any 32-bit arguments.
fn fill_quotient(n: i32, len: i32, max: i32) -> (q: i64)
    requires
        max != 0,
    ensures
        q == trunc_div(n as int * len as int, max as int),
        -0x4000_0000_0000_0000 <= q <= 0x4000_0000_0000_0000,
{
    proof {
        assert(-0x4000_0000_0000_0000 <= (n as int) * (len as int) <= 0x4000_0000_0000_0000)
            by (nonlinear_arith)
            requires
                -0x8000_0000 <= n as int <= 0x7fff_ffff,
                -0x8000_0000 <= len as int <= 0x7fff_ffff,
        ;
    }
    let prod: i64 = (n as i64) * (len as i64);
    let negative: bool = (prod < 0) != (max < 0);
    let up: u64 = if prod < 0 {
        (-prod) as u64
    } else {
        prod as u64
    };
    let um: u64 = if max < 0 {
        (-(max as i64)) as u64
    } else {
        (max as i64) as u64
    };
    let uq: u64 = up / um;
    proof {
        assert((up as int) / (um as int) <= up as int) by (nonlinear_arith)
            requires
                1 <= um as int,
                0 <= up as int,
        ;
        assert(up as int == abs(prod as int));
        assert(um as int == abs(max as int));
    }
    let qi: i64 = uq as i64;
    if negative {
        -qi
    } else {
        qi
    }
}

/// Draws a horizontal progress bar: `width` cells starting at `(sx, sy)`,
/// dense shade up to and including the fill boundary, light shade beyond it.
pub fn draw_bar_horizontal<C: Console>(
    console: &mut C,
    sx: i32,
    sy: i32,
    width: i32,
    n: i32,
    max: i32,
    fg: Rgb,
    bg: Rgb,
)
    requires
        old(console).wf(),
        width > 0 ==> sx + width - 1 <= i32::MAX,
    ensures
        final(console).wf(),
        final(console).dims() == old(console).dims(),
        final(console).writes() == old(console).writes() + hbar_writes(
            sx as int,
            sy as int,
            width as int,
            n as int,
            max as int,
            fg,
            bg,
        ),
{
    let ghost base = console.writes();
    let ghost dims0 = console.dims();
    let ghost s = hbar_writes(sx as int, sy as int, width as int, n as int, max as int, fg, bg);
    let q: i64 = if max != 0 {
        fill_quotient(n, width, max)
    } else {
        0
    };
    proof {
        assert(base + s.take(0) =~= base);
    }
    let mut x: i32 = 0;
    while x < width
        invariant
            console.wf(),
            console.dims() == dims0,
            0 <= x,
            x <= width || x == 0,
            width > 0 ==> sx + width - 1 <= i32::MAX,
            max as int != 0 ==> q == trunc_div(n as int * width as int, max as int),
            s == hbar_writes(sx as int, sy as int, width as int, n as int, max as int, fg, bg),
            console.writes() == base + s.take(x as int),
        decreases width - x,
    {
        let dense: bool = if max != 0 {
            (x as i64) <= q
        } else if n > 0 {
            true
        } else if n == 0 {
            x <= 0
        } else {
            false
        };
        proof {
            assert(dense == hbar_dense(x as int, n as int, max as int, width as int));
        }
        let glyph: u8 = if dense {
            GLYPH_DENSE_SHADE
        } else {
            GLYPH_LIGHT_SHADE
        };
        console.set_cell(sx + x, sy, fg, bg, glyph);
        proof {
            assert(s[x as int] == write_at(sx as int + x as int, sy as int, fg, bg, glyph));
            assert(s.take(x as int + 1) =~= s.take(x as int).push(s[x as int]));
            assert((base + s.take(x as int)).push(s[x as int]) =~= base + s.take(x as int + 1));
        }
        x = x + 1;
    }
    proof {
        if width > 0 {
            assert(s.take(width as int) =~= s);
        } else {
            assert(s.take(0) =~= s);
        }
    }
}

/// Draws a vertical progress bar: `height` cells starting at `(sx, sy)`,
/// light shade above the fill boundary, dense shade at and below it; the fill
/// grows from the bottom upward.
pub fn draw_bar_vertical<C: Console>(
    console: &mut C,
    sx: i32,
    sy: i32,
    height: i32,
    n: i32,
    max: i32,
    fg: Rgb,
    bg: Rgb,
)
    requires
        old(console).wf(),
        height > 0 ==> sy + height - 1 <= i32::MAX,
    ensures
        final(console).wf(),
        final(console).dims() == old(console).dims(),
        final(console).writes() == old(console).writes() + vbar_writes(
            sx as int,
            sy as int,
            height as int,
            n as int,
            max as int,
            fg,
            bg,
        ),
{
    let ghost base = console.writes();
    let ghost dims0 = console.dims();
    let ghost s = vbar_writes(sx as int, sy as int, height as int, n as int, max as int, fg, bg);
    let q: i64 = if max != 0 {
        fill_quotient(n, height, max)
    } else {
        0
    };
    proof {
        assert(base + s.take(0) =~= base);
    }
    let mut y: i32 = 0;
    while y < height
        invariant
            console.wf(),
            console.dims() == dims0,
            0 <= y,
            y <= height || y == 0,
            height > 0 ==> sy + height - 1 <= i32::MAX,
            max as int != 0 ==> q == trunc_div(n as int * height as int, max as int),
            -0x4000_0000_0000_0000 <= q <= 0x4000_0000_0000_0000,
            s == vbar_writes(sx as int, sy as int, height as int, n as int, max as int, fg, bg),
            console.writes() == base + s.take(y as int),
        decreases height - y,
    {
        let dense: bool = if max != 0 {
            (y as i64) >= (height as i64) - q
        } else if n > 0 {
            true
        } else if n == 0 {
            y >= height
        } else {
            false
        };
        proof {
            assert(dense == vbar_dense(y as int, n as int, max as int, height as int));
        }
        let glyph: u8 = if dense {
            GLYPH_DENSE_SHADE
        } else {
            GLYPH_LIGHT_SHADE
        };
        console.set_cell(sx, sy + y, fg, bg, glyph);
        proof {
            assert(s[y as int] == write_at(sx as int, sy as int + y as int, fg, bg, glyph));
            assert(s.take(y as int + 1) =~= s.take(y as int).push(s[y as int]));
            assert((base + s.take(y as int)).push(s[y as int]) =~= base + s.take(y as int + 1));
        }
        y = y + 1;
    }
    proof {
        if height > 0 {
            assert(s.take(height as int) =~= s);
        } else {
            assert(s.take(0) =~= s);
        }
    }
}

} // verus!
