//! The drawing surface: the panel's geometry and pixel format, a logical
//! landscape canvas, and the primitives that paint it.
use vstd::prelude::*;
use crate::text::push_str;
use vstd::arithmetic::power2::{
    lemma2_to64, lemma_pow2_adds, lemma_pow2_pos, lemma_pow2_strictly_increases, pow2,
};

verus! {

/// Width of the logical (landscape) drawing surface.
pub const LOGICAL_WIDTH: usize = 1280;
/// Height of the logical (landscape) drawing surface.
pub const LOGICAL_HEIGHT: usize = 480;
/// Width of the physical (portrait) panel.
pub const PHYSICAL_WIDTH: usize = 600;
/// Height of the physical (portrait) panel.
pub const PHYSICAL_HEIGHT: usize = 1280;

/// Maps a logical landscape coordinate onto the rotated physical panel:
/// the logical x axis runs backwards along the physical rows.
pub fn physical_position(logical_x: usize, logical_y: usize) -> (p: (usize, usize))
    requires
        logical_x < LOGICAL_WIDTH,
        logical_y < LOGICAL_HEIGHT,
    ensures
        p.0 == PHYSICAL_HEIGHT - 1 - logical_x,
        p.1 == logical_y,
{
    (PHYSICAL_HEIGHT - 1 - logical_x, logical_y)
}

/// Distinct logical pixels land on distinct physical pixels, inside the panel.
pub proof fn lemma_physical_position_injective(x1: int, y1: int, x2: int, y2: int)
    requires
        0 <= x1 < LOGICAL_WIDTH && 0 <= y1 < LOGICAL_HEIGHT,
        0 <= x2 < LOGICAL_WIDTH && 0 <= y2 < LOGICAL_HEIGHT,
    ensures
        0 <= PHYSICAL_HEIGHT - 1 - x1 < PHYSICAL_HEIGHT,
        0 <= y1 < PHYSICAL_WIDTH,
        (PHYSICAL_HEIGHT - 1 - x1 == PHYSICAL_HEIGHT - 1 - x2 && y1 == y2) ==> (x1 == x2 && y1
            == y2),
{
}

/// A colour with eight bits per channel.
#[derive(Clone, Copy)]
pub struct Color {
    pub r: u8,
    pub g: u8,
    pub b: u8,
}

impl Color {
    pub fn new(r: u8, g: u8, b: u8) -> (c: Color)
        ensures
            c == (Color { r, g, b }),
    {
        Color { r, g, b }
    }
}

/// Where a channel sits in a pixel: `length` bits from bit `offset`.
#[derive(Clone, Copy)]
pub struct Bitfield {
    pub offset: u32,
    pub length: u32,
    pub msb_right: u32,
}

/// The largest value a channel of `length` bits holds.
pub open spec fn channel_max(length: u32) -> nat {
    if length >= 32 {
        u32::MAX as nat
    } else {
        (pow2(length as nat) - 1) as nat
    }
}

/// An eight-bit channel value scaled, rounding to nearest, to `length` bits.
pub open spec fn channel_scaled(value: u8, length: u32) -> nat {
    ((value * channel_max(length) + 127) / 255) as nat
}

/// A channel value packed into its field (nothing for an empty field).
pub open spec fn channel_bits(value: u8, field: Bitfield) -> u32 {
    if field.length == 0 {
        0
    } else {
        (channel_scaled(value, field.length) as u32) << field.offset
    }
}

/// A field that can be packed: empty, or placed within the 32 bits.
pub open spec fn field_ok(field: Bitfield) -> bool {
    field.length == 0 || field.offset < 32
}

proof fn lemma_channel_max(length: u32)
    requires
        0 < length < 32,
    ensures
        (1u32 << length) - 1 == channel_max(length),
        channel_max(length) < u32::MAX,
{
    vstd::bits::lemma_u32_pow2_no_overflow(length as nat);
    vstd::bits::lemma_u32_shl_is_mul(1, length);
}

/// A channel never spills out of its field: it is the scaled value, at most
/// the field's largest value, shifted to the field's offset.
pub proof fn lemma_channel_fits(value: u8, field: Bitfield)
    requires
        0 < field.length,
        field.offset + field.length <= 32,
    ensures
        channel_scaled(value, field.length) <= channel_max(field.length),
        channel_bits(value, field) == channel_scaled(value, field.length) * pow2(
            field.offset as nat,
        ),
        channel_bits(value, field) < pow2((field.offset + field.length) as nat),
        value == 0 ==> channel_bits(value, field) == 0,
        value == 255 ==> channel_scaled(value, field.length) == channel_max(field.length),
{
    let max = channel_max(field.length);
    let s = channel_scaled(value, field.length);
    assert(s <= max) by (nonlinear_arith)
        requires
            s == (value * max + 127) / 255,
            value <= 255,
    ;
    assert(value == 255 ==> s == max) by (nonlinear_arith)
        requires
            s == (value * max + 127) / 255,
    ;
    assert(value == 0 ==> s == 0) by (nonlinear_arith)
        requires
            s == (value * max + 127) / 255,
    ;
    let o = field.offset as nat;
    let l = field.length as nat;
    lemma_pow2_adds(o, l);
    lemma_pow2_pos(o);
    lemma_pow2_pos(l);
    lemma2_to64();
    let po = pow2(o);
    let pl = pow2(l);
    if field.length < 32 {
        assert(max == pl - 1);
    } else {
        assert(o == 0);
        assert(max == pl - 1);
    }
    if o + l < 32 {
        lemma_pow2_strictly_increases(o + l, 32);
    }
    assert(pow2(o + l) <= 0x1_0000_0000);
    assert(po * pl <= 0x1_0000_0000);
    assert(s * po < po * pl) by (nonlinear_arith)
        requires
            s <= pl - 1,
            po > 0,
    ;
    assert(s <= u32::MAX);
    assert((s as u32) * po <= u32::MAX);
    vstd::bits::lemma_u32_shl_is_mul(s as u32, field.offset);
    if value == 0 {
        assert(s * po == 0) by (nonlinear_arith)
            requires
                s == 0,
        ;
    }
}

/// Where the channels sit in a pixel.
pub struct PixelFormat {
    pub red: Bitfield,
    pub green: Bitfield,
    pub blue: Bitfield,
    pub transp: Bitfield,
}

/// The pixel word of a colour: each channel packed into its field, alpha
/// fully opaque, cut to sixteen bits.
pub open spec fn pixel_word(format: PixelFormat, color: Color) -> u16 {
    (channel_bits(color.r, format.red) | channel_bits(color.g, format.green) | channel_bits(
        color.b,
        format.blue,
    ) | channel_bits(255, format.transp)) as u16
}

/// The screen information the kernel reports for a framebuffer device.
#[derive(Clone, Copy)]
pub struct ScreenInfo {
    pub xres: u32,
    pub yres: u32,
    pub bits_per_pixel: u32,
    pub red: Bitfield,
    pub green: Bitfield,
    pub blue: Bitfield,
    pub transp: Bitfield,
    /// Bytes per physical row.
    pub line_length: u32,
    /// Bytes of framebuffer memory.
    pub smem_len: u32,
}

/// The only framebuffer the dashboard drives: the rotated 600x1280 panel in
/// RGB565 without alpha, with rows long enough for a row of pixels and memory
/// for every row.
pub open spec fn screen_supported(info: ScreenInfo) -> bool {
    &&& info.xres == PHYSICAL_WIDTH
    &&& info.yres == PHYSICAL_HEIGHT
    &&& info.bits_per_pixel == 16
    &&& info.line_length >= PHYSICAL_WIDTH * 2
    &&& info.line_length % 2 == 0
    &&& info.smem_len as usize >= sat_mul(info.line_length as usize, PHYSICAL_HEIGHT)
    &&& info.red.offset == 11 && info.red.length == 5
    &&& info.green.offset == 5 && info.green.length == 6
    &&& info.blue.offset == 0 && info.blue.length == 5
    &&& info.transp.length == 0
}

/// The panel is accepted exactly when it is 600x1280 at 16 bits per pixel in
/// RGB565 without alpha, its rows are an even number of bytes, at least two
/// per pixel, and its memory holds at least 1280 such rows (more is fine).
pub proof fn lemma_screen_acceptance(info: ScreenInfo)
    requires
        info.line_length * 1280 <= usize::MAX,
    ensures
        screen_supported(info) <==> {
            &&& info.xres == 600 && info.yres == 1280 && info.bits_per_pixel == 16
            &&& info.line_length >= 1200 && info.line_length % 2 == 0
            &&& info.smem_len >= info.line_length * 1280
            &&& info.red.offset == 11 && info.red.length == 5
            &&& info.green.offset == 5 && info.green.length == 6
            &&& info.blue.offset == 0 && info.blue.length == 5
            &&& info.transp.length == 0
        },
{
}

/// More memory never makes a supported panel unsupported.
pub proof fn lemma_screen_more_memory(info: ScreenInfo, smem_len: u32)
    requires
        screen_supported(info),
        info.smem_len <= smem_len,
    ensures
        screen_supported(ScreenInfo { smem_len, ..info }),
{
}

/// A one-pixel-wide slice of the canvas.
pub open spec fn at(canvas: Seq<u16>, px: int, py: int) -> u16 {
    canvas[py * LOGICAL_WIDTH + px]
}

/// A logical pixel position.
pub open spec fn on_canvas(px: int, py: int) -> bool {
    0 <= px < LOGICAL_WIDTH && 0 <= py < LOGICAL_HEIGHT
}

/// `new` is `old` with `value` on every pixel of `region` and nothing else changed.
pub open spec fn painted(
    old: Seq<u16>,
    new: Seq<u16>,
    value: u16,
    region: spec_fn(int, int) -> bool,
) -> bool {
    &&& new.len() == old.len()
    &&& forall|px: int, py: int|
        on_canvas(px, py) ==> #[trigger] at(new, px, py) == if region(px, py) {
            value
        } else {
            at(old, px, py)
        }
}

/// The point `(px, py)` lies in the rectangle at `(x, y)` of size `w` x `h`.
pub open spec fn in_rect(px: int, py: int, x: int, y: int, w: int, h: int) -> bool {
    x <= px < x + w && y <= py < y + h
}

/// The dashboard's canvas on a supported framebuffer.
pub struct Framebuffer {
    pub width: usize,
    pub height: usize,
    /// Bytes per physical row.
    pub line_length: usize,
    pub bits_per_pixel: u32,
    pub red: Bitfield,
    pub green: Bitfield,
    pub blue: Bitfield,
    pub transp: Bitfield,
    /// Logical pixels, row by row.
    pub canvas: Vec<u16>,
    /// One logical column, staged for a physical row.
    pub row: Vec<u16>,
}

impl Framebuffer {
    /// A canvas of the logical size, with a column buffer and packable fields.
    pub open spec fn wf(&self) -> bool {
        &&& self.width == LOGICAL_WIDTH
        &&& self.height == LOGICAL_HEIGHT
        &&& self.canvas.len() == LOGICAL_WIDTH * LOGICAL_HEIGHT
        &&& self.row.len() == LOGICAL_HEIGHT
        &&& field_ok(self.red)
        &&& field_ok(self.green)
        &&& field_ok(self.blue)
        &&& field_ok(self.transp)
    }

    /// `self` and `other` differ at most in the pixels of their canvas and column.
    pub open spec fn same_format(&self, other: &Framebuffer) -> bool {
        &&& self.width == other.width
        &&& self.height == other.height
        &&& self.line_length == other.line_length
        &&& self.bits_per_pixel == other.bits_per_pixel
        &&& self.red == other.red
        &&& self.green == other.green
        &&& self.blue == other.blue
        &&& self.transp == other.transp
        &&& self.canvas.len() == other.canvas.len()
        &&& self.row.len() == other.row.len()
    }

    /// The pixel format of this framebuffer.
    pub open spec fn format(&self) -> PixelFormat {
        PixelFormat { red: self.red, green: self.green, blue: self.blue, transp: self.transp }
    }

    /// The pixel word of a colour in this framebuffer's format.
    pub open spec fn pixel_of(&self, color: Color) -> u16 {
        pixel_word(self.format(), color)
    }

    /// A black canvas for a supported framebuffer, or why the framebuffer is
    /// not supported.
    pub fn from_screen(info: &ScreenInfo) -> (r: Result<Framebuffer, String>)
        ensures
            r is Ok <==> screen_supported(*info),
            r matches Ok(fb) ==> {
                &&& fb.wf()
                &&& fb.line_length == info.line_length
                &&& fb.bits_per_pixel == info.bits_per_pixel
                &&& fb.red == info.red && fb.green == info.green
                &&& fb.blue == info.blue && fb.transp == info.transp
                &&& forall|i: int| 0 <= i < fb.canvas.len() ==> fb.canvas@[i] == 0
            },
            r matches Err(e) ==> e@ == "unsupported framebuffer; expected rotated 600x1280 RGB565"@,
    {
        let stride = info.line_length as usize;
        let len = info.smem_len as usize;
        let required = if stride > usize::MAX / PHYSICAL_HEIGHT {
            usize::MAX
        } else {
            stride * PHYSICAL_HEIGHT
        };
        assert(required == sat_mul(stride, PHYSICAL_HEIGHT));
        if info.xres as usize != PHYSICAL_WIDTH || info.yres as usize != PHYSICAL_HEIGHT
            || info.bits_per_pixel != 16 || stride < PHYSICAL_WIDTH * 2 || stride % 2 != 0 || len
            < required || info.red.offset != 11 || info.red.length != 5 || info.green.offset != 5
            || info.green.length != 6 || info.blue.offset != 0 || info.blue.length != 5
            || info.transp.length != 0 {
            let mut e = String::new();
            push_str(&mut e, "unsupported framebuffer; expected rotated 600x1280 RGB565");
            return Err(e);
        }
        let canvas = vec![0u16; LOGICAL_WIDTH * LOGICAL_HEIGHT];
        let row = vec![0u16; LOGICAL_HEIGHT];
        Ok(
            Framebuffer {
                width: LOGICAL_WIDTH,
                height: LOGICAL_HEIGHT,
                line_length: stride,
                bits_per_pixel: info.bits_per_pixel,
                red: info.red,
                green: info.green,
                blue: info.blue,
                transp: info.transp,
                canvas,
                row,
            },
        )
    }

    /// Whether this canvas is well formed (what every drawing call expects).
    pub fn is_well_formed(&self) -> (b: bool)
        ensures
            b == self.wf(),
    {
        self.width == LOGICAL_WIDTH && self.height == LOGICAL_HEIGHT && self.canvas.len()
            == LOGICAL_WIDTH * LOGICAL_HEIGHT && self.row.len() == LOGICAL_HEIGHT && (
        self.red.length == 0 || self.red.offset < 32) && (self.green.length == 0
            || self.green.offset < 32) && (self.blue.length == 0 || self.blue.offset < 32) && (
        self.transp.length == 0 || self.transp.offset < 32)
    }

    /// Packs an eight-bit channel value into its field of a pixel.
    pub fn pack_channel(value: u8, field: Bitfield) -> (r: u32)
        requires
            field_ok(field),
        ensures
            r == channel_bits(value, field),
    {
        if field.length == 0 {
            return 0;
        }
        let max = if field.length >= 32 {
            u32::MAX
        } else {
            proof {
                lemma_channel_max(field.length);
            }
            (1u32 << field.length) - 1
        };
        assert(value * max <= 255 * (u32::MAX as int)) by (nonlinear_arith)
            requires
                value <= 255,
                max <= u32::MAX,
        ;
        let product = value as u64 * max as u64 + 127;
        let scaled = product / 255;
        assert(scaled <= max) by (nonlinear_arith)
            requires
                scaled == (value * max + 127) / 255,
                value <= 255,
        ;
        (scaled as u32) << field.offset
    }

    /// The pixel word of a colour.
    pub fn pixel_value(&self, color: Color) -> (v: u16)
        requires
            self.wf(),
        ensures
            v == self.pixel_of(color),
    {
        (Self::pack_channel(color.r, self.red) | Self::pack_channel(color.g, self.green)
            | Self::pack_channel(color.b, self.blue) | Self::pack_channel(255, self.transp)) as u16
    }

    /// Paints one pixel; positions off the canvas are ignored.
    pub fn pixel(&mut self, x: usize, y: usize, color: Color)
        requires
            old(self).wf(),
        ensures
            final(self).wf(),
            final(self).same_format(old(self)),
            final(self).row == old(self).row,
            painted(
                old(self).canvas@,
                final(self).canvas@,
                old(self).pixel_of(color),
                |px: int, py: int| px == x && py == y,
            ),
    {
        if x < self.width && y < self.height {
            let v = self.pixel_value(color);
            self.canvas.set(y * self.width + x, v);
        }
    }

    /// Paints the whole canvas.
    pub fn fill(&mut self, color: Color)
        requires
            old(self).wf(),
        ensures
            final(self).wf(),
            final(self).same_format(old(self)),
            final(self).row == old(self).row,
            painted(
                old(self).canvas@,
                final(self).canvas@,
                old(self).pixel_of(color),
                |px: int, py: int| true,
            ),
    {
        let value = self.pixel_value(color);
        let n = self.canvas.len();
        for i in 0..n
            invariant
                self.wf(),
                self.same_format(old(self)),
                self.row == old(self).row,
                n == self.canvas.len(),
                forall|j: int| 0 <= j < i ==> self.canvas@[j] == value,
        {
            self.canvas.set(i, value);
        }
        assert forall|px: int, py: int| on_canvas(px, py) implies #[trigger] at(
            self.canvas@,
            px,
            py,
        ) == value by {
            assert(0 <= py * LOGICAL_WIDTH + px < n);
        }
    }

    /// Paints the part of the rectangle at `(x, y)` of size `width` x `height`
    /// that lies on the canvas.
    pub fn rect(&mut self, x: usize, y: usize, width: usize, height: usize, color: Color)
        requires
            old(self).wf(),
        ensures
            final(self).wf(),
            final(self).same_format(old(self)),
            final(self).row == old(self).row,
            painted(
                old(self).canvas@,
                final(self).canvas@,
                old(self).pixel_of(color),
                |px: int, py: int| in_rect(px, py, x as int, y as int, width as int, height as int),
            ),
    {
        let ghost start = self.canvas@;
        let ghost value = self.pixel_of(color);
        let x_end = min(x.saturating_add(width), self.width);
        let y_end = min(y.saturating_add(height), self.height);
        let x_start = min(x, self.width);
        let mut yy = min(y, self.height);
        while yy < y_end
            invariant
                self.wf(),
                self.same_format(old(self)),
                self.row == old(self).row,
                start == old(self).canvas@,
                value == old(self).pixel_of(color),
                x_start == min(x, LOGICAL_WIDTH),
                x_end == min(sat_add(x, width), LOGICAL_WIDTH),
                y_end == min(sat_add(y, height), LOGICAL_HEIGHT),
                min(y, LOGICAL_HEIGHT) <= yy <= LOGICAL_HEIGHT,
                forall|px: int, py: int|
                    on_canvas(px, py) ==> #[trigger] at(self.canvas@, px, py) == if in_rect(
                        px,
                        py,
                        x as int,
                        y as int,
                        width as int,
                        height as int,
                    ) && py < yy {
                        value
                    } else {
                        at(start, px, py)
                    },
            decreases y_end - yy,
        {
            let mut xx = x_start;
            while xx < x_end
                invariant
                    self.wf(),
                    self.same_format(old(self)),
                    self.row == old(self).row,
                    value == old(self).pixel_of(color),
                    x_start == min(x, LOGICAL_WIDTH),
                    x_end == min(sat_add(x, width), LOGICAL_WIDTH),
                    y_end == min(sat_add(y, height), LOGICAL_HEIGHT),
                    min(y, LOGICAL_HEIGHT) <= yy < y_end,
                    x_start <= xx <= LOGICAL_WIDTH,
                    forall|px: int, py: int|
                        on_canvas(px, py) ==> #[trigger] at(self.canvas@, px, py) == if in_rect(
                            px,
                            py,
                            x as int,
                            y as int,
                            width as int,
                            height as int,
                        ) && (py < yy || (py == yy && px < xx)) {
                            value
                        } else {
                            at(start, px, py)
                        },
                decreases x_end - xx,
            {
                let ghost before = self.canvas@;
                self.pixel(xx, yy, color);
                assert forall|px: int, py: int| on_canvas(px, py) implies #[trigger] at(
                    self.canvas@,
                    px,
                    py,
                ) == if in_rect(px, py, x as int, y as int, width as int, height as int) && (py
                    < yy || (py == yy && px < xx + 1)) {
                    value
                } else {
                    at(start, px, py)
                } by {
                    assert(at(before, px, py) == at(before, px, py));
                }
                xx = xx + 1;
            }
            yy = yy + 1;
        }
    }
}

impl Framebuffer {
    /// Stages logical column `logical_x` in the column buffer, top to bottom,
    /// and tells which physical row it is shown on.
    pub fn stage_column(&mut self, logical_x: usize) -> (physical_row: usize)
        requires
            old(self).wf(),
            logical_x < LOGICAL_WIDTH,
        ensures
            final(self).wf(),
            final(self).same_format(old(self)),
            final(self).canvas == old(self).canvas,
            physical_row == PHYSICAL_HEIGHT - 1 - logical_x,
            forall|y: int| 0 <= y < LOGICAL_HEIGHT ==> #[trigger] final(self).row@[y] == at(
                old(self).canvas@,
                logical_x as int,
                y,
            ),
    {
        let (physical_row, _) = physical_position(logical_x, 0);
        for logical_y in 0..LOGICAL_HEIGHT
            invariant
                self.wf(),
                self.same_format(old(self)),
                self.canvas == old(self).canvas,
                logical_x < LOGICAL_WIDTH,
                forall|y: int| 0 <= y < logical_y ==> #[trigger] self.row@[y] == at(
                    old(self).canvas@,
                    logical_x as int,
                    y,
                ),
        {
            let v = self.canvas[logical_y * LOGICAL_WIDTH + logical_x];
            self.row.set(logical_y, v);
        }
        physical_row
    }
}

/// On the supported format a colour becomes an RGB565 word: five bits of red
/// on top, six of green, five of blue, each channel scaled to its width.
pub proof fn lemma_rgb565(fb: Framebuffer, color: Color)
    requires
        fb.red.offset == 11 && fb.red.length == 5,
        fb.green.offset == 5 && fb.green.length == 6,
        fb.blue.offset == 0 && fb.blue.length == 5,
        fb.transp.length == 0,
    ensures
        fb.pixel_of(color) == channel_scaled(color.r, 5) * 2048 + channel_scaled(color.g, 6) * 32
            + channel_scaled(color.b, 5),
        channel_scaled(color.r, 5) < 32,
        channel_scaled(color.g, 6) < 64,
        channel_scaled(color.b, 5) < 32,
{
    lemma_channel_fits(color.r, fb.red);
    lemma_channel_fits(color.g, fb.green);
    lemma_channel_fits(color.b, fb.blue);
    lemma2_to64();
    let r = channel_scaled(color.r, 5) as u32;
    let g = channel_scaled(color.g, 6) as u32;
    let b = channel_scaled(color.b, 5) as u32;
    assert(r < 32 && g < 64 && b < 32);
    assert(channel_bits(color.r, fb.red) == r * 2048);
    assert(channel_bits(color.g, fb.green) == g * 32);
    assert(channel_bits(color.b, fb.blue) == b);
    assert(((r * 2048) as u32 | (g * 32) as u32 | b | 0u32) as u16 == r * 2048 + g * 32 + b)
        by (bit_vector)
        requires
            r < 32,
            g < 64,
            b < 32,
    ;
}

/// A product of sizes that stops at `usize::MAX`.
pub open spec fn sat_mul(a: usize, b: usize) -> usize {
    if a * b > usize::MAX {
        usize::MAX
    } else {
        (a * b) as usize
    }
}

/// A sum of sizes that stops at `usize::MAX`.
pub open spec fn sat_add(a: usize, b: usize) -> usize {
    if a + b > usize::MAX {
        usize::MAX
    } else {
        (a + b) as usize
    }
}

/// The smaller of two sizes.
#[verifier::allow_in_spec]
pub fn min(a: usize, b: usize) -> usize
    returns
        if a < b {
            a
        } else {
            b
        },
{
    if a < b {
        a
    } else {
        b
    }
}

} // verus!
