//! Drawing text on the canvas with the 5x7 font, each font pixel a square
//! of `scale` x `scale` canvas pixels.
use vstd::prelude::*;
use vstd::utf8::encode_utf8;
use crate::font::{ascii_upper, font_glyph, glyph};
use crate::screen::{
    at, in_rect, on_canvas, painted, sat_add, sat_mul, Color, Framebuffer, LOGICAL_WIDTH,
};

verus! {

/// Row `row` of a glyph column is lit.
pub open spec fn lit(bits: u8, row: int) -> bool {
    bits & (1u8 << (row as u8)) != 0
}

/// The canvas square of font pixel (`c`, `r`) of a glyph at (`x`, `y`) holds
/// (`px`, `py`), and that font pixel is lit.
pub open spec fn glyph_square(
    g: Seq<u8>,
    x: usize,
    y: usize,
    scale: usize,
    c: int,
    r: int,
    px: int,
    py: int,
) -> bool {
    &&& lit(g[c], r)
    &&& in_rect(
        px,
        py,
        sat_add(x, sat_mul(c as usize, scale)) as int,
        sat_add(y, sat_mul(r as usize, scale)) as int,
        scale as int,
        scale as int,
    )
}

/// Some lit font pixel before column `column`, row `row` (in column order)
/// covers (`px`, `py`).
pub open spec fn glyph_covers_before(
    g: Seq<u8>,
    x: usize,
    y: usize,
    scale: usize,
    px: int,
    py: int,
    column: int,
    row: int,
) -> bool {
    exists|c: int, r: int|
        0 <= c < 5 && 0 <= r < 7 && (c < column || (c == column && r < row))
            && #[trigger] glyph_square(g, x, y, scale, c, r, px, py)
}

/// A glyph drawn at (`x`, `y`) covers (`px`, `py`).
pub open spec fn glyph_covers(g: Seq<u8>, x: usize, y: usize, scale: usize, px: int, py: int) -> bool {
    glyph_covers_before(g, x, y, scale, px, py, 5, 0)
}

proof fn lemma_covers_step(
    g: Seq<u8>,
    x: usize,
    y: usize,
    scale: usize,
    px: int,
    py: int,
    column: int,
    row: int,
)
    requires
        0 <= column < 5,
        0 <= row < 7,
    ensures
        glyph_covers_before(g, x, y, scale, px, py, column, row + 1) == (glyph_covers_before(
            g,
            x,
            y,
            scale,
            px,
            py,
            column,
            row,
        ) || glyph_square(g, x, y, scale, column, row, px, py)),
        glyph_covers_before(g, x, y, scale, px, py, column, 7) == glyph_covers_before(
            g,
            x,
            y,
            scale,
            px,
            py,
            column + 1,
            0,
        ),
{
    if glyph_covers_before(g, x, y, scale, px, py, column, row + 1) {
        let (c, r) = choose|c: int, r: int|
            0 <= c < 5 && 0 <= r < 7 && (c < column || (c == column && r < row + 1))
                && #[trigger] glyph_square(g, x, y, scale, c, r, px, py);
        if !(c == column && r == row) {
            assert(glyph_covers_before(g, x, y, scale, px, py, column, row));
        }
    }
    if glyph_square(g, x, y, scale, column, row, px, py) {
        assert(glyph_covers_before(g, x, y, scale, px, py, column, row + 1));
    }
    if glyph_covers_before(g, x, y, scale, px, py, column, row) {
        let (c, r) = choose|c: int, r: int|
            0 <= c < 5 && 0 <= r < 7 && (c < column || (c == column && r < row))
                && #[trigger] glyph_square(g, x, y, scale, c, r, px, py);
        assert(glyph_covers_before(g, x, y, scale, px, py, column, row + 1));
    }
    if glyph_covers_before(g, x, y, scale, px, py, column, 7) {
        let (c, r) = choose|c: int, r: int|
            0 <= c < 5 && 0 <= r < 7 && (c < column || (c == column && r < 7))
                && #[trigger] glyph_square(g, x, y, scale, c, r, px, py);
        assert(glyph_covers_before(g, x, y, scale, px, py, column + 1, 0));
    }
    if glyph_covers_before(g, x, y, scale, px, py, column + 1, 0) {
        let (c, r) = choose|c: int, r: int|
            0 <= c < 5 && 0 <= r < 7 && (c < column + 1 || (c == column + 1 && r < 0))
                && #[trigger] glyph_square(g, x, y, scale, c, r, px, py);
        assert(glyph_covers_before(g, x, y, scale, px, py, column, 7));
    }
}

/// A product of sizes that stops at `usize::MAX`.
pub fn saturating_mul(a: usize, b: usize) -> (r: usize)
    ensures
        r == sat_mul(a, b),
{
    match a.checked_mul(b) {
        Some(p) => p,
        None => usize::MAX,
    }
}

/// How far the text cursor moves per glyph.
pub open spec fn text_step(scale: usize) -> usize {
    sat_mul(6, scale)
}

/// Where glyph `i` of a text at `x` is drawn.
pub open spec fn glyph_origin(x: usize, scale: usize, i: int) -> usize {
    if x + i * text_step(scale) > usize::MAX {
        usize::MAX
    } else {
        (x + i * text_step(scale)) as usize
    }
}

/// Glyph `i` of a text of `n` bytes at `x` is drawn: the first always is,
/// the others while they start on the canvas.
pub open spec fn glyph_drawn(x: usize, scale: usize, i: int, n: int) -> bool {
    0 <= i < n && (i == 0 || glyph_origin(x, scale, i) < LOGICAL_WIDTH)
}

/// Some drawn glyph before glyph `k` of the text `bytes` covers (`px`, `py`).
pub open spec fn text_covers_before(
    bytes: Seq<u8>,
    x: usize,
    y: usize,
    scale: usize,
    px: int,
    py: int,
    k: int,
) -> bool {
    exists|i: int|
        0 <= i < k && glyph_drawn(x, scale, i, bytes.len() as int) && #[trigger] glyph_covers(
            font_glyph(ascii_upper(bytes[i])),
            glyph_origin(x, scale, i),
            y,
            scale,
            px,
            py,
        )
}

/// The text `bytes` drawn at (`x`, `y`) covers (`px`, `py`).
pub open spec fn text_covers(
    bytes: Seq<u8>,
    x: usize,
    y: usize,
    scale: usize,
    px: int,
    py: int,
) -> bool {
    text_covers_before(bytes, x, y, scale, px, py, bytes.len() as int)
}

proof fn lemma_cell_position(x: usize, y: usize, s: usize, n: int, i: int, c: int, r: int)
    requires
        x + 6 * s * n <= usize::MAX,
        y + 7 * s <= usize::MAX,
        0 <= i < n,
        0 <= c < 5,
        0 <= r < 7,
    ensures
        text_step(s) == 6 * s,
        glyph_origin(x, s, i) == x + 6 * s * i,
        sat_add(glyph_origin(x, s, i), sat_mul(c as usize, s)) == x + 6 * s * i + c * s,
        sat_add(y, sat_mul(r as usize, s)) == y + r * s,
{
    assert(6 * s <= 6 * s * n) by (nonlinear_arith)
        requires
            0 <= i < n,
            s >= 0,
    ;
    assert(i * (6 * s) == 6 * s * i) by (nonlinear_arith);
    assert(6 * s * i + 6 * s <= 6 * s * n) by (nonlinear_arith)
        requires
            0 <= i < n,
            s >= 0,
    ;
    assert(c * s <= 4 * s) by (nonlinear_arith)
        requires
            0 <= c < 5,
            s >= 0,
    ;
    assert(r * s <= 6 * s) by (nonlinear_arith)
        requires
            0 <= r < 7,
            s >= 0,
    ;
    assert(0 <= c * s) by (nonlinear_arith)
        requires
            0 <= c,
            s >= 0,
    ;
    assert(0 <= r * s) by (nonlinear_arith)
        requires
            0 <= r,
            s >= 0,
    ;
    assert(0 <= 6 * s * i) by (nonlinear_arith)
        requires
            0 <= i,
            s >= 0,
    ;
}

/// Text is set one glyph every `6 * scale` canvas pixels: the text at
/// (`x`, `y`) covers a pixel exactly when some drawn glyph `i` (the first,
/// or one whose left edge `x + 6 * scale * i` is on the canvas) has a lit
/// font pixel (`c`, `r`) whose `scale` x `scale` square, from
/// (`x + 6 * scale * i + c * scale`, `y + r * scale`), holds it. A glyph is
/// five font pixels wide, so each glyph is followed by one blank column and
/// neighbouring glyphs never overlap.
pub proof fn lemma_text_layout(bytes: Seq<u8>, x: usize, y: usize, scale: usize, px: int, py: int)
    requires
        x + 6 * scale * bytes.len() <= usize::MAX,
        y + 7 * scale <= usize::MAX,
    ensures
        text_covers(bytes, x, y, scale, px, py) <==> exists|i: int, c: int, r: int|
            0 <= i < bytes.len() && (i == 0 || x + 6 * scale * i < LOGICAL_WIDTH) && 0 <= c < 5
                && 0 <= r < 7 && #[trigger] lit(font_glyph(ascii_upper(bytes[i]))[c], r) && x + 6
                * scale * i + c * scale <= px < x + 6 * scale * i + c * scale + scale && y + r
                * scale <= py < y + r * scale + scale,
{
    let n = bytes.len() as int;
    if text_covers(bytes, x, y, scale, px, py) {
        let i = choose|i: int|
            0 <= i < n && glyph_drawn(x, scale, i, n) && #[trigger] glyph_covers(
                font_glyph(ascii_upper(bytes[i])),
                glyph_origin(x, scale, i),
                y,
                scale,
                px,
                py,
            );
        let g = font_glyph(ascii_upper(bytes[i]));
        let o = glyph_origin(x, scale, i);
        let (c, r) = choose|c: int, r: int|
            0 <= c < 5 && 0 <= r < 7 && (c < 5 || (c == 5 && r < 0)) && #[trigger] glyph_square(
                g,
                o,
                y,
                scale,
                c,
                r,
                px,
                py,
            );
        lemma_cell_position(x, y, scale, n, i, c, r);
        assert(lit(font_glyph(ascii_upper(bytes[i]))[c], r));
    }
    if exists|i: int, c: int, r: int|
        0 <= i < bytes.len() && (i == 0 || x + 6 * scale * i < LOGICAL_WIDTH) && 0 <= c < 5 && 0
            <= r < 7 && #[trigger] lit(font_glyph(ascii_upper(bytes[i]))[c], r) && x + 6 * scale
            * i + c * scale <= px < x + 6 * scale * i + c * scale + scale && y + r * scale <= py
            < y + r * scale + scale {
        let (i, c, r) = choose|i: int, c: int, r: int|
            0 <= i < bytes.len() && (i == 0 || x + 6 * scale * i < LOGICAL_WIDTH) && 0 <= c < 5
                && 0 <= r < 7 && #[trigger] lit(font_glyph(ascii_upper(bytes[i]))[c], r) && x + 6
                * scale * i + c * scale <= px < x + 6 * scale * i + c * scale + scale && y + r
                * scale <= py < y + r * scale + scale;
        lemma_cell_position(x, y, scale, n, i, c, r);
        let g = font_glyph(ascii_upper(bytes[i]));
        let o = glyph_origin(x, scale, i);
        assert(glyph_square(g, o, y, scale, c, r, px, py));
        assert(glyph_covers(g, o, y, scale, px, py));
        assert(glyph_drawn(x, scale, i, n));
    }
}

proof fn lemma_origin_step(x: usize, scale: usize, i: int)
    requires
        0 <= i,
    ensures
        glyph_origin(x, scale, i + 1) == sat_add(glyph_origin(x, scale, i), text_step(scale)),
        glyph_origin(x, scale, i) <= glyph_origin(x, scale, i + 1),
{
    let s = text_step(scale);
    assert((i + 1) * s == i * s + s) by (nonlinear_arith);
    assert(i * s >= 0) by (nonlinear_arith)
        requires
            i >= 0,
            s >= 0,
    ;
}

proof fn lemma_origin_monotonic(x: usize, scale: usize, i: int, j: int)
    requires
        0 <= i <= j,
    ensures
        glyph_origin(x, scale, i) <= glyph_origin(x, scale, j),
{
    let s = text_step(scale);
    assert(i * s <= j * s) by (nonlinear_arith)
        requires
            0 <= i <= j,
            s >= 0,
    ;
}

proof fn lemma_text_step(
    bytes: Seq<u8>,
    x: usize,
    y: usize,
    scale: usize,
    px: int,
    py: int,
    k: int,
)
    requires
        0 <= k,
    ensures
        text_covers_before(bytes, x, y, scale, px, py, k + 1) == (text_covers_before(
            bytes,
            x,
            y,
            scale,
            px,
            py,
            k,
        ) || (glyph_drawn(x, scale, k, bytes.len() as int) && glyph_covers(
            font_glyph(ascii_upper(bytes[k])),
            glyph_origin(x, scale, k),
            y,
            scale,
            px,
            py,
        ))),
{
    if text_covers_before(bytes, x, y, scale, px, py, k + 1) {
        let i = choose|i: int|
            0 <= i < k + 1 && glyph_drawn(x, scale, i, bytes.len() as int) && #[trigger] glyph_covers(
                font_glyph(ascii_upper(bytes[i])),
                glyph_origin(x, scale, i),
                y,
                scale,
                px,
                py,
            );
        if i < k {
            assert(text_covers_before(bytes, x, y, scale, px, py, k));
        }
    }
    if text_covers_before(bytes, x, y, scale, px, py, k) {
        let i = choose|i: int|
            0 <= i < k && glyph_drawn(x, scale, i, bytes.len() as int) && #[trigger] glyph_covers(
                font_glyph(ascii_upper(bytes[i])),
                glyph_origin(x, scale, i),
                y,
                scale,
                px,
                py,
            );
        assert(text_covers_before(bytes, x, y, scale, px, py, k + 1));
    }
}

/// Once a glyph after the first starts off the canvas, so do all later ones:
/// the glyphs drawn are the ones before it.
proof fn lemma_text_rest_undrawn(
    bytes: Seq<u8>,
    x: usize,
    y: usize,
    scale: usize,
    px: int,
    py: int,
    k: int,
)
    requires
        1 <= k <= bytes.len(),
        glyph_origin(x, scale, k) >= LOGICAL_WIDTH,
    ensures
        text_covers(bytes, x, y, scale, px, py) == text_covers_before(
            bytes,
            x,
            y,
            scale,
            px,
            py,
            k,
        ),
{
    if text_covers(bytes, x, y, scale, px, py) {
        let i = choose|i: int|
            0 <= i < bytes.len() && glyph_drawn(x, scale, i, bytes.len() as int)
                && #[trigger] glyph_covers(
                font_glyph(ascii_upper(bytes[i])),
                glyph_origin(x, scale, i),
                y,
                scale,
                px,
                py,
            );
        if i >= k {
            lemma_origin_monotonic(x, scale, k, i);
            assert(false);
        }
        assert(text_covers_before(bytes, x, y, scale, px, py, k));
    }
    if text_covers_before(bytes, x, y, scale, px, py, k) {
        let i = choose|i: int|
            0 <= i < k && glyph_drawn(x, scale, i, bytes.len() as int) && #[trigger] glyph_covers(
                font_glyph(ascii_upper(bytes[i])),
                glyph_origin(x, scale, i),
                y,
                scale,
                px,
                py,
            );
        assert(text_covers(bytes, x, y, scale, px, py));
    }
}

impl Framebuffer {
    /// Draws the glyph of `byte` with its top-left corner at (`x`, `y`).
    pub fn glyph(&mut self, x: usize, y: usize, byte: u8, scale: usize, color: Color)
        requires
            old(self).wf(),
        ensures
            final(self).wf(),
            final(self).same_format(old(self)),
            final(self).row == old(self).row,
            painted(
                old(self).canvas@,
                final(self).canvas@,
                old(self).pixel_of(color),
                |px: int, py: int|
                    glyph_covers(font_glyph(ascii_upper(byte)), x, y, scale, px, py),
            ),
    {
        let ghost start = self.canvas@;
        let ghost value = self.pixel_of(color);
        let g = glyph(byte);
        let ghost gs = font_glyph(ascii_upper(byte));
        for column in 0..5usize
            invariant
                self.wf(),
                self.same_format(old(self)),
                self.row == old(self).row,
                start == old(self).canvas@,
                value == old(self).pixel_of(color),
                g@ == gs,
                forall|px: int, py: int|
                    on_canvas(px, py) ==> #[trigger] at(self.canvas@, px, py) == if glyph_covers_before(
                        gs,
                        x,
                        y,
                        scale,
                        px,
                        py,
                        column as int,
                        0,
                    ) {
                        value
                    } else {
                        at(start, px, py)
                    },
        {
            let bits = g[column];
            for row in 0..7usize
                invariant
                    self.wf(),
                    self.same_format(old(self)),
                    self.row == old(self).row,
                    start == old(self).canvas@,
                    value == old(self).pixel_of(color),
                    g@ == gs,
                    column < 5,
                    bits == gs[column as int],
                    forall|px: int, py: int|
                        on_canvas(px, py) ==> #[trigger] at(self.canvas@, px, py)
                            == if glyph_covers_before(
                            gs,
                            x,
                            y,
                            scale,
                            px,
                            py,
                            column as int,
                            row as int,
                        ) {
                            value
                        } else {
                            at(start, px, py)
                        },
            {
                let ghost before = self.canvas@;
                if bits & (1u8 << (row as u8)) != 0 {
                    let cx = x.saturating_add(saturating_mul(column, scale));
                    let cy = y.saturating_add(saturating_mul(row, scale));
                    self.rect(cx, cy, scale, scale, color);
                }
                assert forall|px: int, py: int| on_canvas(px, py) implies #[trigger] at(
                    self.canvas@,
                    px,
                    py,
                ) == if glyph_covers_before(
                    gs,
                    x,
                    y,
                    scale,
                    px,
                    py,
                    column as int,
                    row + 1,
                ) {
                    value
                } else {
                    at(start, px, py)
                } by {
                    lemma_covers_step(gs, x, y, scale, px, py, column as int, row as int);
                    assert(at(before, px, py) == at(before, px, py));
                }
            }
            assert forall|px: int, py: int| on_canvas(px, py) implies #[trigger] at(
                self.canvas@,
                px,
                py,
            ) == if glyph_covers_before(gs, x, y, scale, px, py, column + 1, 0) {
                value
            } else {
                at(start, px, py)
            } by {
                lemma_covers_step(gs, x, y, scale, px, py, column as int, 0);
            }
        }
    }

    /// Draws the bytes of `text` from (`x`, `y`), one glyph every six font
    /// pixels, while the glyphs after the first start on the canvas.
    pub fn text(&mut self, x: usize, y: usize, text: &str, scale: usize, color: Color)
        requires
            old(self).wf(),
        ensures
            final(self).wf(),
            final(self).same_format(old(self)),
            final(self).row == old(self).row,
            painted(
                old(self).canvas@,
                final(self).canvas@,
                old(self).pixel_of(color),
                |px: int, py: int| text_covers(encode_utf8(text@), x, y, scale, px, py),
            ),
    {
        let ghost start = self.canvas@;
        let ghost value = self.pixel_of(color);
        let bytes = text.as_bytes();
        let ghost bs = encode_utf8(text@);
        let n = bytes.len();
        let step = saturating_mul(6, scale);
        let mut cursor = x;
        let mut i: usize = 0;
        while i < n && (i == 0 || cursor < self.width)
            invariant
                self.wf(),
                self.same_format(old(self)),
                self.row == old(self).row,
                start == old(self).canvas@,
                value == old(self).pixel_of(color),
                bytes@ == bs,
                n == bs.len(),
                step == text_step(scale),
                i <= n,
                cursor == glyph_origin(x, scale, i as int),
                forall|px: int, py: int|
                    on_canvas(px, py) ==> #[trigger] at(self.canvas@, px, py) == if text_covers_before(
                        bs,
                        x,
                        y,
                        scale,
                        px,
                        py,
                        i as int,
                    ) {
                        value
                    } else {
                        at(start, px, py)
                    },
            decreases n - i,
        {
            let ghost before = self.canvas@;
            self.glyph(cursor, y, bytes[i], scale, color);
            assert forall|px: int, py: int| on_canvas(px, py) implies #[trigger] at(
                self.canvas@,
                px,
                py,
            ) == if text_covers_before(bs, x, y, scale, px, py, i + 1) {
                value
            } else {
                at(start, px, py)
            } by {
                lemma_text_step(bs, x, y, scale, px, py, i as int);
                assert(at(before, px, py) == at(before, px, py));
            }
            proof {
                lemma_origin_step(x, scale, i as int);
            }
            cursor = cursor.saturating_add(step);
            i = i + 1;
        }
        assert forall|px: int, py: int| on_canvas(px, py) implies #[trigger] at(
            self.canvas@,
            px,
            py,
        ) == if text_covers(bs, x, y, scale, px, py) {
            value
        } else {
            at(start, px, py)
        } by {
            if i < n {
                lemma_text_rest_undrawn(bs, x, y, scale, px, py, i as int);
            }
        }
    }
}

} // verus!
