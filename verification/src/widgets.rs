//! The dashboard's widgets: titled panels, text lines, bar histories and meters.
use vstd::prelude::*;
use crate::metrics::HISTORY_SAMPLES;
use crate::paint::{
    apply_paint, apply_paints, lemma_apply_one, lemma_apply_paints_concat, lemma_apply_push,
    lemma_empty_rect, Paint,
};
use crate::screen::{min, pixel_word, sat_mul, Color, Framebuffer, PixelFormat, LOGICAL_WIDTH};

verus! {

// RetroDeck dashboard palette: surface, controls, Wi-Fi, volume, title, accent.
#[verifier::allow_in_spec]
pub fn black() -> Color
    returns
        (Color { r: 0, g: 0, b: 0 }),
{
    Color { r: 0, g: 0, b: 0 }
}
#[verifier::allow_in_spec]
pub fn panel() -> Color
    returns
        (Color { r: 28, g: 28, b: 28 }),
{
    Color { r: 28, g: 28, b: 28 }
}
#[verifier::allow_in_spec]
pub fn panel_alt() -> Color
    returns
        (Color { r: 48, g: 48, b: 48 }),
{
    Color { r: 48, g: 48, b: 48 }
}
#[verifier::allow_in_spec]
pub fn white() -> Color
    returns
        (Color { r: 238, g: 238, b: 238 }),
{
    Color { r: 238, g: 238, b: 238 }
}
#[verifier::allow_in_spec]
pub fn muted() -> Color
    returns
        (Color { r: 148, g: 148, b: 148 }),
{
    Color { r: 148, g: 148, b: 148 }
}
#[verifier::allow_in_spec]
pub fn cyan() -> Color
    returns
        (Color { r: 95, g: 135, b: 175 }),
{
    Color { r: 95, g: 135, b: 175 }
}
#[verifier::allow_in_spec]
pub fn green() -> Color
    returns
        (Color { r: 135, g: 175, b: 135 }),
{
    Color { r: 135, g: 175, b: 135 }
}
#[verifier::allow_in_spec]
pub fn amber() -> Color
    returns
        (Color { r: 255, g: 255, b: 175 }),
{
    Color { r: 255, g: 255, b: 175 }
}
#[verifier::allow_in_spec]
pub fn red() -> Color
    returns
        (Color { r: 175, g: 135, b: 135 }),
{
    Color { r: 175, g: 135, b: 135 }
}
#[verifier::allow_in_spec]
pub fn blue() -> Color
    returns
        (Color { r: 254, g: 108, b: 39 }),
{
    Color { r: 254, g: 108, b: 39 }
}

/// A difference of sizes that stops at zero.
pub open spec fn sat_sub(a: usize, b: usize) -> usize {
    if a > b {
        (a - b) as usize
    } else {
        0
    }
}

/// The larger of two sizes.
pub open spec fn max(a: usize, b: usize) -> usize {
    if a > b {
        a
    } else {
        b
    }
}

/// The frame of the framebuffer after `ps`, from its state `start`, keeping
/// its format: what the helpers below keep true while they paint.
pub open spec fn painted_from(
    fb: Framebuffer,
    fmt: PixelFormat,
    start: Seq<u16>,
    ps: Seq<Paint>,
) -> bool {
    &&& fb.wf()
    &&& fb.format() == fmt
    &&& fb.canvas@ == apply_paints(fmt, start, ps)
}

/// A panel: its surface, a title bar one scale unit high, and its title.
pub open spec fn panel_paints(
    x: usize,
    y: usize,
    w: usize,
    h: usize,
    title: Seq<char>,
    scale: usize,
) -> Seq<Paint> {
    seq![
        Paint::Rect { x, y, w, h, color: panel() },
        Paint::Rect { x, y, w, h: max(scale, 1), color: cyan() },
        Paint::Text {
            x: (x + 4 * scale) as usize,
            y: (y + 4 * scale) as usize,
            text: title,
            scale,
            color: white(),
        },
    ]
}

/// Draws a titled panel.
pub fn draw_panel(
    fb: &mut Framebuffer,
    x: usize,
    y: usize,
    w: usize,
    h: usize,
    title: &str,
    scale: usize,
)
    requires
        old(fb).wf(),
        x + 4 * scale <= usize::MAX,
        y + 4 * scale <= usize::MAX,
    ensures
        final(fb).wf(),
        final(fb).same_format(old(fb)),
        final(fb).row == old(fb).row,
        final(fb).canvas@ == apply_paints(
            old(fb).format(),
            old(fb).canvas@,
            panel_paints(x, y, w, h, title@, scale),
        ),
{
    let ghost fmt = fb.format();
    let ghost c0 = fb.canvas@;
    let ghost ps = panel_paints(x, y, w, h, title@, scale);
    fb.paint_rect(x, y, w, h, panel());
    proof {
        lemma_apply_one(fmt, c0, ps[0]);
    }
    let bar = if scale > 1 {
        scale
    } else {
        1
    };
    fb.paint_rect(x, y, w, bar, cyan());
    proof {
        lemma_apply_push(fmt, c0, seq![ps[0]], ps[1]);
        assert(seq![ps[0]].push(ps[1]) =~= ps.take(2));
    }
    fb.paint_text(x + 4 * scale, y + 4 * scale, title, scale, white());
    proof {
        lemma_apply_push(fmt, c0, ps.take(2), ps[2]);
        assert(ps.take(2).push(ps[2]) =~= ps);
    }
}

/// Draws a line of text.
pub fn draw_line(fb: &mut Framebuffer, x: usize, y: usize, text: &str, color: Color, scale: usize)
    requires
        old(fb).wf(),
    ensures
        final(fb).wf(),
        final(fb).same_format(old(fb)),
        final(fb).row == old(fb).row,
        final(fb).canvas@ == apply_paints(
            old(fb).format(),
            old(fb).canvas@,
            seq![Paint::Text { x, y, text: text@, scale, color }],
        ),
{
    fb.paint_text(x, y, text, scale, color);
    proof {
        lemma_apply_one(old(fb).format(), old(fb).canvas@, Paint::Text { x, y, text: text@, scale, color });
    }
}

/// How many of the latest samples a history of `width` pixels shows.
pub open spec fn history_count(samples: Seq<u8>, width: usize) -> int {
    let slots = min(HISTORY_SAMPLES, width) as int;
    if samples.len() < slots {
        samples.len() as int
    } else {
        slots
    }
}

/// The bar for shown sample `k`: the samples fill the right end of the
/// history, one column per slot, and a bar is as high as its percentage of
/// the chart (two pixels short of its height).
pub open spec fn history_bar(
    x: usize,
    y: usize,
    width: usize,
    height: usize,
    samples: Seq<u8>,
    color: Color,
    k: int,
) -> Paint {
    let slots = min(HISTORY_SAMPLES, width) as int;
    let count = history_count(samples, width);
    let start = samples.len() - count;
    let column_width = max(width / (slots as usize), 1) as int;
    let first_slot = slots - count;
    let bar_height = sat_sub(height, 2) * samples[start + k] / 100;
    Paint::Rect {
        x: (x + (first_slot + k) * column_width) as usize,
        y: (y + height - bar_height) as usize,
        w: max(sat_sub(column_width as usize, 1), 1),
        h: bar_height as usize,
        color,
    }
}

/// A bar history: a black background with a middle line, then a bar for
/// each shown sample (none for an empty history or an empty area).
pub open spec fn history_paints(
    x: usize,
    y: usize,
    width: usize,
    height: usize,
    samples: Seq<u8>,
    color: Color,
) -> Seq<Paint> {
    let base = seq![
        Paint::Rect { x, y, w: width, h: height, color: black() },
        Paint::Rect { x, y: (y + height / 2) as usize, w: width, h: 1, color: panel_alt() },
    ];
    if samples.len() == 0 || width == 0 || height == 0 {
        base
    } else {
        base + history_bars(x, y, width, height, samples, color)
    }
}

/// The positions of a history fit in `usize`, and no bar reaches above `0`.
pub open spec fn history_fits(
    x: usize,
    y: usize,
    width: usize,
    height: usize,
    samples: Seq<u8>,
) -> bool {
    let slots = min(HISTORY_SAMPLES, width) as int;
    let count = history_count(samples, width);
    let start = samples.len() - count;
    let column_width = max(width / (slots as usize), 1) as int;
    let first_slot = slots - count;
    &&& y + height / 2 <= usize::MAX
    &&& (samples.len() > 0 && width > 0 && height > 0) ==> forall|k: int|
        0 <= k < count ==> {
            &&& sat_sub(height, 2) * #[trigger] samples[start + k] <= usize::MAX
            &&& sat_sub(height, 2) * samples[start + k] / 100 > 0 ==> {
                &&& x + (first_slot + k) * column_width <= usize::MAX
                &&& y + height <= usize::MAX
                &&& sat_sub(height, 2) * samples[start + k] / 100 <= y + height
            }
        }
}

/// The bars of a history, one per shown sample.
pub open spec fn history_bars(
    x: usize,
    y: usize,
    width: usize,
    height: usize,
    samples: Seq<u8>,
    color: Color,
) -> Seq<Paint> {
    Seq::new(
        history_count(samples, width) as nat,
        |k: int| history_bar(x, y, width, height, samples, color, k),
    )
}

fn draw_bars(
    fb: &mut Framebuffer,
    x: usize,
    y: usize,
    width: usize,
    height: usize,
    samples: &[u8],
    color: Color,
)
    requires
        old(fb).wf(),
        history_fits(x, y, width, height, samples@),
        samples.len() > 0 && width > 0 && height > 0,
    ensures
        final(fb).wf(),
        final(fb).same_format(old(fb)),
        final(fb).row == old(fb).row,
        final(fb).canvas@ == apply_paints(
            old(fb).format(),
            old(fb).canvas@,
            history_bars(x, y, width, height, samples@, color),
        ),
{
    let ghost fmt = fb.format();
    let ghost c0 = fb.canvas@;
    let ghost bars = history_bars(x, y, width, height, samples@, color);
    let slots = min(HISTORY_SAMPLES, width);
    let count = min(samples.len(), slots);
    let start = samples.len() - count;
    let column_width = if width / slots > 1 {
        width / slots
    } else {
        1
    };
    let first_slot = slots - count;
    let bar_width = if column_width > 1 {
        column_width - 1
    } else {
        1
    };
    let mut index: usize = 0;
    assert(bars.take(0) =~= Seq::<Paint>::empty());
    while index < count
        invariant
            fb.wf(),
            fb.same_format(old(fb)),
            fb.row == old(fb).row,
            fb.format() == fmt,
            history_fits(x, y, width, height, samples@),
            samples.len() > 0 && width > 0 && height > 0,
            slots == min(HISTORY_SAMPLES, width),
            count == history_count(samples@, width),
            start == samples.len() - count,
            column_width == max(width / slots, 1),
            first_slot == slots - count,
            bar_width == max(sat_sub(column_width, 1), 1),
            bars == history_bars(x, y, width, height, samples@, color),
            index <= count,
            fb.canvas@ == apply_paints(fmt, c0, bars.take(index as int)),
        decreases count - index,
    {
        let ghost before = fb.canvas@;
        let value = samples[start + index];
        assert(samples@[start + index] == value);
        let bar_height = (if height > 2 {
            height - 2
        } else {
            0
        }) * (value as usize) / 100;
        let ghost bar = bars[index as int];
        assert(bar == history_bar(x, y, width, height, samples@, color, index as int));
        assert(bars.take(index + 1) =~= bars.take(index as int).push(bar));
        proof {
            lemma_apply_push(fmt, c0, bars.take(index as int), bar);
        }
        if bar_height == 0 {
            proof {
                lemma_empty_rect(
                    fmt,
                    before,
                    (x + (first_slot + index) * column_width) as usize,
                    (y + height - bar_height) as usize,
                    bar_width,
                    color,
                );
            }
            index = index + 1;
            continue;
        }
        let bar_x = x + (first_slot + index) * column_width;
        let bar_y = y + height - bar_height;
        fb.paint_rect(bar_x, bar_y, bar_width, bar_height, color);
        index = index + 1;
    }
    assert(bars.take(count as int) =~= bars);
}

/// Draws a bar history of `samples`, oldest first, into the given area.
pub fn draw_history(
    fb: &mut Framebuffer,
    x: usize,
    y: usize,
    width: usize,
    height: usize,
    samples: &[u8],
    color: Color,
)
    requires
        old(fb).wf(),
        history_fits(x, y, width, height, samples@),
    ensures
        final(fb).wf(),
        final(fb).same_format(old(fb)),
        final(fb).row == old(fb).row,
        final(fb).canvas@ == apply_paints(
            old(fb).format(),
            old(fb).canvas@,
            history_paints(x, y, width, height, samples@, color),
        ),
{
    let ghost fmt = fb.format();
    let ghost c0 = fb.canvas@;
    let ghost base = seq![
        Paint::Rect { x, y, w: width, h: height, color: black() },
        Paint::Rect { x, y: (y + height / 2) as usize, w: width, h: 1, color: panel_alt() },
    ];
    fb.paint_rect(x, y, width, height, black());
    proof {
        lemma_apply_one(fmt, c0, base[0]);
    }
    fb.paint_rect(x, y + height / 2, width, 1, panel_alt());
    proof {
        lemma_apply_push(fmt, c0, seq![base[0]], base[1]);
        assert(seq![base[0]].push(base[1]) =~= base);
    }
    if samples.len() == 0 || width == 0 || height == 0 {
        return;
    }
    let ghost mid = fb.canvas@;
    draw_bars(fb, x, y, width, height, samples, color);
    proof {
        lemma_apply_paints_concat(fmt, c0, base, history_bars(x, y, width, height, samples@, color));
    }
}

/// A meter: a black track, filled from the left to `value` percent.
pub open spec fn meter_paints(
    x: usize,
    y: usize,
    width: usize,
    height: usize,
    value: u8,
    color: Color,
) -> Seq<Paint> {
    let filled = sat_mul(width, value as usize) / 100;
    let track = seq![Paint::Rect { x, y, w: width, h: height, color: black() }];
    if filled > 0 {
        track.push(Paint::Rect { x, y, w: filled as usize, h: height, color })
    } else {
        track
    }
}

/// A meter at `value` percent paints, on its track, the first
/// `width * value / 100` columns in its colour and the rest of the track
/// black, and leaves every pixel off the track as it was: the fill grows
/// with the value, from nothing at 0 to the whole track at 100.
pub proof fn lemma_meter_pixels(
    fmt: PixelFormat,
    c: Seq<u16>,
    x: usize,
    y: usize,
    width: usize,
    height: usize,
    value: u8,
    color: Color,
    i: int,
)
    requires
        value <= 100,
        width * value <= usize::MAX,
        0 <= i < c.len(),
    ensures
        ({
            let px = i % (LOGICAL_WIDTH as int);
            let py = i / (LOGICAL_WIDTH as int);
            let r = apply_paints(fmt, c, meter_paints(x, y, width, height, value, color));
            let on_track = x <= px < x + width && y <= py < y + height;
            &&& on_track && px < x + width * value / 100 ==> r[i] == pixel_word(fmt, color)
            &&& on_track && px >= x + width * value / 100 ==> r[i] == pixel_word(fmt, black())
            &&& !on_track ==> r[i] == c[i]
        }),
{
    let filled = width * value / 100;
    assert(filled <= width) by (nonlinear_arith)
        requires
            filled == width * value / 100,
            value <= 100,
    ;
    assert(sat_mul(width, value as usize) == width * value);
    let track = Paint::Rect { x, y, w: width, h: height, color: black() };
    lemma_apply_one(fmt, c, track);
    let c1 = apply_paint(fmt, c, track);
    if filled > 0 {
        let fill = Paint::Rect { x, y, w: filled as usize, h: height, color };
        lemma_apply_push(fmt, c, seq![track], fill);
        assert(seq![track].push(fill) == meter_paints(x, y, width, height, value, color));
    } else {
        assert(seq![track] == meter_paints(x, y, width, height, value, color));
    }
}

/// Draws a meter.
pub fn draw_meter(
    fb: &mut Framebuffer,
    x: usize,
    y: usize,
    width: usize,
    height: usize,
    value: u8,
    color: Color,
)
    requires
        old(fb).wf(),
    ensures
        final(fb).wf(),
        final(fb).same_format(old(fb)),
        final(fb).row == old(fb).row,
        final(fb).canvas@ == apply_paints(
            old(fb).format(),
            old(fb).canvas@,
            meter_paints(x, y, width, height, value, color),
        ),
{
    let ghost fmt = fb.format();
    let ghost c0 = fb.canvas@;
    let ghost track = seq![Paint::Rect { x, y, w: width, h: height, color: black() }];
    fb.paint_rect(x, y, width, height, black());
    proof {
        lemma_apply_one(fmt, c0, track[0]);
        assert(track[0] == Paint::Rect { x, y, w: width, h: height, color: black() });
    }
    let filled = crate::glyphs::saturating_mul(width, value as usize) / 100;
    if filled > 0 {
        fb.paint_rect(x, y, filled, height, color);
        proof {
            lemma_apply_push(fmt, c0, track, Paint::Rect { x, y, w: filled, h: height, color });
        }
    }
}

} // verus!
