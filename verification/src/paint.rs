//! Paint operations as values: what a sequence of drawing calls does to the
//! canvas, and the composite widgets of the dashboard built from them.
use vstd::prelude::*;
use vstd::utf8::encode_utf8;
use crate::glyphs::text_covers;
use crate::screen::{
    at, in_rect, on_canvas, painted, pixel_word, Color, Framebuffer, PixelFormat, LOGICAL_HEIGHT,
    LOGICAL_WIDTH,
};

verus! {

/// One drawing operation.
pub enum Paint {
    /// The whole canvas in one colour.
    Fill { color: Color },
    /// A rectangle (clipped to the canvas).
    Rect { x: usize, y: usize, w: usize, h: usize, color: Color },
    /// A line of text in the 5x7 font.
    Text { x: usize, y: usize, text: Seq<char>, scale: usize, color: Color },
}

/// The canvas `c` with `value` on every pixel of `region`.
pub open spec fn paint_region(c: Seq<u16>, value: u16, region: spec_fn(int, int) -> bool) -> Seq<
    u16,
> {
    Seq::new(
        c.len(),
        |i: int|
            if region(i % (LOGICAL_WIDTH as int), i / (LOGICAL_WIDTH as int)) {
                value
            } else {
                c[i]
            },
    )
}

/// The pixels a paint operation covers.
pub open spec fn paint_covers(p: Paint, px: int, py: int) -> bool {
    match p {
        Paint::Fill { .. } => true,
        Paint::Rect { x, y, w, h, .. } => in_rect(px, py, x as int, y as int, w as int, h as int),
        Paint::Text { x, y, text, scale, .. } => text_covers(
            encode_utf8(text),
            x,
            y,
            scale,
            px,
            py,
        ),
    }
}

/// The colour of a paint operation.
pub open spec fn paint_color(p: Paint) -> Color {
    match p {
        Paint::Fill { color } => color,
        Paint::Rect { color, .. } => color,
        Paint::Text { color, .. } => color,
    }
}

/// The canvas after one paint operation, in pixel format `fmt`.
pub open spec fn apply_paint(fmt: PixelFormat, c: Seq<u16>, p: Paint) -> Seq<u16> {
    paint_region(c, pixel_word(fmt, paint_color(p)), |px: int, py: int| paint_covers(p, px, py))
}

/// The canvas after paint operations, in order.
pub open spec fn apply_paints(fmt: PixelFormat, c: Seq<u16>, ps: Seq<Paint>) -> Seq<u16>
    decreases ps.len(),
{
    if ps.len() == 0 {
        c
    } else {
        apply_paint(fmt, apply_paints(fmt, c, ps.drop_last()), ps.last())
    }
}

/// A canvas painted as `painted` says is the canvas of `paint_region`.
pub proof fn lemma_painted_is_region(
    old: Seq<u16>,
    new: Seq<u16>,
    value: u16,
    region: spec_fn(int, int) -> bool,
)
    requires
        old.len() == LOGICAL_WIDTH * LOGICAL_HEIGHT,
        painted(old, new, value, region),
    ensures
        new == paint_region(old, value, region),
{
    assert forall|i: int| 0 <= i < new.len() implies new[i] == paint_region(old, value, region)[i] by {
        let w = LOGICAL_WIDTH as int;
        let px = i % w;
        let py = i / w;
        assert(i == py * w + px);
        assert(on_canvas(px, py));
        assert(at(new, px, py) == new[i]);
        assert(at(old, px, py) == old[i]);
    }
    assert(new =~= paint_region(old, value, region));
}

/// Painting `a` and then `b` is painting `a + b`.
pub proof fn lemma_apply_paints_concat(fb: PixelFormat, c: Seq<u16>, a: Seq<Paint>, b: Seq<Paint>)
    ensures
        apply_paints(fb, c, a + b) == apply_paints(fb, apply_paints(fb, c, a), b),
    decreases b.len(),
{
    if b.len() == 0 {
        assert(a + b =~= a);
    } else {
        assert((a + b).drop_last() =~= a + b.drop_last());
        assert((a + b).last() == b.last());
        lemma_apply_paints_concat(fb, c, a, b.drop_last());
    }
}

/// Painting a single operation.
pub proof fn lemma_apply_one(fb: PixelFormat, c: Seq<u16>, p: Paint)
    ensures
        apply_paints(fb, c, seq![p]) == apply_paint(fb, c, p),
{
    assert(seq![p].drop_last() =~= Seq::<Paint>::empty());
    assert(apply_paints(fb, c, Seq::<Paint>::empty()) == c);
    assert(seq![p].last() == p);
}

/// Painting one more operation after a sequence of them.
pub proof fn lemma_apply_push(fb: PixelFormat, c: Seq<u16>, ps: Seq<Paint>, p: Paint)
    ensures
        apply_paints(fb, c, ps.push(p)) == apply_paint(fb, apply_paints(fb, c, ps), p),
{
    assert(ps.push(p).drop_last() =~= ps);
}

/// A rectangle that covers no pixel changes nothing.
pub proof fn lemma_empty_rect(fb: PixelFormat, c: Seq<u16>, x: usize, y: usize, w: usize, color: Color)
    ensures
        apply_paint(fb, c, Paint::Rect { x, y, w, h: 0, color }) == c,
{
    assert(apply_paint(fb, c, Paint::Rect { x, y, w, h: 0, color }) =~= c);
}

impl Framebuffer {
    /// Performs one paint operation.
    pub fn paint_rect(&mut self, x: usize, y: usize, w: usize, h: usize, color: Color)
        requires
            old(self).wf(),
        ensures
            final(self).wf(),
            final(self).same_format(old(self)),
            final(self).row == old(self).row,
            final(self).canvas@ == apply_paint(
                old(self).format(),
                old(self).canvas@,
                Paint::Rect { x, y, w, h, color },
            ),
    {
        let ghost p = Paint::Rect { x, y, w, h, color };
        self.rect(x, y, w, h, color);
        proof {
            lemma_painted_is_region(
                old(self).canvas@,
                self.canvas@,
                old(self).pixel_of(color),
                |px: int, py: int| in_rect(px, py, x as int, y as int, w as int, h as int),
            );
            assert(self.canvas@ =~= apply_paint(old(self).format(), old(self).canvas@, p));
        }
    }

    /// Paints the whole canvas.
    pub fn paint_fill(&mut self, color: Color)
        requires
            old(self).wf(),
        ensures
            final(self).wf(),
            final(self).same_format(old(self)),
            final(self).row == old(self).row,
            final(self).canvas@ == apply_paint(old(self).format(), old(self).canvas@, Paint::Fill { color }),
    {
        let ghost p = Paint::Fill { color };
        self.fill(color);
        proof {
            lemma_painted_is_region(
                old(self).canvas@,
                self.canvas@,
                old(self).pixel_of(color),
                |px: int, py: int| true,
            );
            assert(self.canvas@ =~= apply_paint(old(self).format(), old(self).canvas@, p));
        }
    }

    /// Draws a line of text.
    pub fn paint_text(&mut self, x: usize, y: usize, text: &str, scale: usize, color: Color)
        requires
            old(self).wf(),
        ensures
            final(self).wf(),
            final(self).same_format(old(self)),
            final(self).row == old(self).row,
            final(self).canvas@ == apply_paint(
                old(self).format(),
                old(self).canvas@,
                Paint::Text { x, y, text: text@, scale, color },
            ),
    {
        let ghost p = Paint::Text { x, y, text: text@, scale, color };
        self.text(x, y, text, scale, color);
        proof {
            lemma_painted_is_region(
                old(self).canvas@,
                self.canvas@,
                old(self).pixel_of(color),
                |px: int, py: int| text_covers(encode_utf8(text@), x, y, scale, px, py),
            );
            assert(self.canvas@ =~= apply_paint(old(self).format(), old(self).canvas@, p));
        }
    }
}

} // verus!
