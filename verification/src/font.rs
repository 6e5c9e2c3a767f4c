//! The dashboard's 5x7 font: one byte per column, bit `r` lights row `r`.
use vstd::prelude::*;

verus! {

/// The ASCII upper case of a byte (other bytes unchanged).
pub open spec fn ascii_upper(b: u8) -> u8 {
    if 97 <= b <= 122 {
        (b - 32) as u8
    } else {
        b
    }
}

/// The columns of the glyph drawn for an upper-case byte; bytes without a
/// glyph of their own get a hollow box.
pub open spec fn font_glyph(c: u8) -> Seq<u8> {
    match c {
        65 => seq![0x7eu8, 0x11u8, 0x11u8, 0x11u8, 0x7eu8],  // 'A'
        66 => seq![0x7fu8, 0x49u8, 0x49u8, 0x49u8, 0x36u8],  // 'B'
        67 => seq![0x3eu8, 0x41u8, 0x41u8, 0x41u8, 0x22u8],  // 'C'
        68 => seq![0x7fu8, 0x41u8, 0x41u8, 0x22u8, 0x1cu8],  // 'D'
        69 => seq![0x7fu8, 0x49u8, 0x49u8, 0x49u8, 0x41u8],  // 'E'
        70 => seq![0x7fu8, 0x09u8, 0x09u8, 0x09u8, 0x01u8],  // 'F'
        71 => seq![0x3eu8, 0x41u8, 0x49u8, 0x49u8, 0x7au8],  // 'G'
        72 => seq![0x7fu8, 0x08u8, 0x08u8, 0x08u8, 0x7fu8],  // 'H'
        73 => seq![0x00u8, 0x41u8, 0x7fu8, 0x41u8, 0x00u8],  // 'I'
        74 => seq![0x20u8, 0x40u8, 0x41u8, 0x3fu8, 0x01u8],  // 'J'
        75 => seq![0x7fu8, 0x08u8, 0x14u8, 0x22u8, 0x41u8],  // 'K'
        76 => seq![0x7fu8, 0x40u8, 0x40u8, 0x40u8, 0x40u8],  // 'L'
        77 => seq![0x7fu8, 0x02u8, 0x0cu8, 0x02u8, 0x7fu8],  // 'M'
        78 => seq![0x7fu8, 0x04u8, 0x08u8, 0x10u8, 0x7fu8],  // 'N'
        79 => seq![0x3eu8, 0x41u8, 0x41u8, 0x41u8, 0x3eu8],  // 'O'
        80 => seq![0x7fu8, 0x09u8, 0x09u8, 0x09u8, 0x06u8],  // 'P'
        81 => seq![0x3eu8, 0x41u8, 0x51u8, 0x21u8, 0x5eu8],  // 'Q'
        82 => seq![0x7fu8, 0x09u8, 0x19u8, 0x29u8, 0x46u8],  // 'R'
        83 => seq![0x46u8, 0x49u8, 0x49u8, 0x49u8, 0x31u8],  // 'S'
        84 => seq![0x01u8, 0x01u8, 0x7fu8, 0x01u8, 0x01u8],  // 'T'
        85 => seq![0x3fu8, 0x40u8, 0x40u8, 0x40u8, 0x3fu8],  // 'U'
        86 => seq![0x1fu8, 0x20u8, 0x40u8, 0x20u8, 0x1fu8],  // 'V'
        87 => seq![0x3fu8, 0x40u8, 0x38u8, 0x40u8, 0x3fu8],  // 'W'
        88 => seq![0x63u8, 0x14u8, 0x08u8, 0x14u8, 0x63u8],  // 'X'
        89 => seq![0x07u8, 0x08u8, 0x70u8, 0x08u8, 0x07u8],  // 'Y'
        90 => seq![0x61u8, 0x51u8, 0x49u8, 0x45u8, 0x43u8],  // 'Z'
        48 => seq![0x3eu8, 0x45u8, 0x49u8, 0x51u8, 0x3eu8],  // '0'
        49 => seq![0x00u8, 0x41u8, 0x7fu8, 0x40u8, 0x00u8],  // '1'
        50 => seq![0x62u8, 0x51u8, 0x49u8, 0x49u8, 0x46u8],  // '2'
        51 => seq![0x22u8, 0x41u8, 0x49u8, 0x49u8, 0x36u8],  // '3'
        52 => seq![0x18u8, 0x14u8, 0x12u8, 0x7fu8, 0x10u8],  // '4'
        53 => seq![0x2fu8, 0x49u8, 0x49u8, 0x49u8, 0x31u8],  // '5'
        54 => seq![0x3eu8, 0x49u8, 0x49u8, 0x49u8, 0x32u8],  // '6'
        55 => seq![0x01u8, 0x71u8, 0x09u8, 0x05u8, 0x03u8],  // '7'
        56 => seq![0x36u8, 0x49u8, 0x49u8, 0x49u8, 0x36u8],  // '8'
        57 => seq![0x26u8, 0x49u8, 0x49u8, 0x49u8, 0x3eu8],  // '9'
        46 => seq![0x00u8, 0x60u8, 0x60u8, 0x00u8, 0x00u8],  // '.'
        58 => seq![0x00u8, 0x36u8, 0x36u8, 0x00u8, 0x00u8],  // ':'
        47 => seq![0x60u8, 0x10u8, 0x08u8, 0x04u8, 0x03u8],  // '/'
        45 => seq![0x08u8, 0x08u8, 0x08u8, 0x08u8, 0x08u8],  // '-'
        95 => seq![0x40u8, 0x40u8, 0x40u8, 0x40u8, 0x40u8],  // '_'
        37 => seq![0x63u8, 0x13u8, 0x08u8, 0x64u8, 0x63u8],  // '%'
        43 => seq![0x08u8, 0x08u8, 0x3eu8, 0x08u8, 0x08u8],  // '+'
        91 => seq![0x7fu8, 0x41u8, 0x41u8, 0x00u8, 0x00u8],  // '['
        93 => seq![0x00u8, 0x00u8, 0x41u8, 0x41u8, 0x7fu8],  // ']'
        61 => seq![0x14u8, 0x14u8, 0x14u8, 0x14u8, 0x14u8],  // '='
        32 => seq![0u8, 0u8, 0u8, 0u8, 0u8],  // ' '
        _ => seq![0x7fu8, 0x41u8, 0x5du8, 0x41u8, 0x7fu8],
    }
}

/// The glyph for a byte, case-insensitively.
pub fn glyph(byte: u8) -> (g: [u8; 5])
    ensures
        g@ == font_glyph(ascii_upper(byte)),
{
    let upper = if 97 <= byte && byte <= 122 {
        byte - 32
    } else {
        byte
    };
    let g = match upper {
        65 => [0x7e, 0x11, 0x11, 0x11, 0x7e],  // 'A'
        66 => [0x7f, 0x49, 0x49, 0x49, 0x36],  // 'B'
        67 => [0x3e, 0x41, 0x41, 0x41, 0x22],  // 'C'
        68 => [0x7f, 0x41, 0x41, 0x22, 0x1c],  // 'D'
        69 => [0x7f, 0x49, 0x49, 0x49, 0x41],  // 'E'
        70 => [0x7f, 0x09, 0x09, 0x09, 0x01],  // 'F'
        71 => [0x3e, 0x41, 0x49, 0x49, 0x7a],  // 'G'
        72 => [0x7f, 0x08, 0x08, 0x08, 0x7f],  // 'H'
        73 => [0x00, 0x41, 0x7f, 0x41, 0x00],  // 'I'
        74 => [0x20, 0x40, 0x41, 0x3f, 0x01],  // 'J'
        75 => [0x7f, 0x08, 0x14, 0x22, 0x41],  // 'K'
        76 => [0x7f, 0x40, 0x40, 0x40, 0x40],  // 'L'
        77 => [0x7f, 0x02, 0x0c, 0x02, 0x7f],  // 'M'
        78 => [0x7f, 0x04, 0x08, 0x10, 0x7f],  // 'N'
        79 => [0x3e, 0x41, 0x41, 0x41, 0x3e],  // 'O'
        80 => [0x7f, 0x09, 0x09, 0x09, 0x06],  // 'P'
        81 => [0x3e, 0x41, 0x51, 0x21, 0x5e],  // 'Q'
        82 => [0x7f, 0x09, 0x19, 0x29, 0x46],  // 'R'
        83 => [0x46, 0x49, 0x49, 0x49, 0x31],  // 'S'
        84 => [0x01, 0x01, 0x7f, 0x01, 0x01],  // 'T'
        85 => [0x3f, 0x40, 0x40, 0x40, 0x3f],  // 'U'
        86 => [0x1f, 0x20, 0x40, 0x20, 0x1f],  // 'V'
        87 => [0x3f, 0x40, 0x38, 0x40, 0x3f],  // 'W'
        88 => [0x63, 0x14, 0x08, 0x14, 0x63],  // 'X'
        89 => [0x07, 0x08, 0x70, 0x08, 0x07],  // 'Y'
        90 => [0x61, 0x51, 0x49, 0x45, 0x43],  // 'Z'
        48 => [0x3e, 0x45, 0x49, 0x51, 0x3e],  // '0'
        49 => [0x00, 0x41, 0x7f, 0x40, 0x00],  // '1'
        50 => [0x62, 0x51, 0x49, 0x49, 0x46],  // '2'
        51 => [0x22, 0x41, 0x49, 0x49, 0x36],  // '3'
        52 => [0x18, 0x14, 0x12, 0x7f, 0x10],  // '4'
        53 => [0x2f, 0x49, 0x49, 0x49, 0x31],  // '5'
        54 => [0x3e, 0x49, 0x49, 0x49, 0x32],  // '6'
        55 => [0x01, 0x71, 0x09, 0x05, 0x03],  // '7'
        56 => [0x36, 0x49, 0x49, 0x49, 0x36],  // '8'
        57 => [0x26, 0x49, 0x49, 0x49, 0x3e],  // '9'
        46 => [0x00, 0x60, 0x60, 0x00, 0x00],  // '.'
        58 => [0x00, 0x36, 0x36, 0x00, 0x00],  // ':'
        47 => [0x60, 0x10, 0x08, 0x04, 0x03],  // '/'
        45 => [0x08, 0x08, 0x08, 0x08, 0x08],  // '-'
        95 => [0x40, 0x40, 0x40, 0x40, 0x40],  // '_'
        37 => [0x63, 0x13, 0x08, 0x64, 0x63],  // '%'
        43 => [0x08, 0x08, 0x3e, 0x08, 0x08],  // '+'
        91 => [0x7f, 0x41, 0x41, 0x00, 0x00],  // '['
        93 => [0x00, 0x00, 0x41, 0x41, 0x7f],  // ']'
        61 => [0x14, 0x14, 0x14, 0x14, 0x14],  // '='
        32 => [0, 0, 0, 0, 0],  // ' '
        _ => [0x7f, 0x41, 0x5d, 0x41, 0x7f],
    };
    assert(g@ =~= font_glyph(upper));
    g
}

/// Lower-case letters are drawn as their capitals.
pub proof fn lemma_glyph_case_insensitive(b: u8)
    requires
        97 <= b <= 122,
    ensures
        font_glyph(ascii_upper(b)) == font_glyph(ascii_upper((b - 32) as u8)),
{
}

/// The upper-case bytes that have a glyph of their own: the capitals, the
/// digits, space and `. : / - _ % + [ ] =`.
pub open spec fn has_glyph(c: u8) -> bool {
    ||| 65 <= c <= 90
    ||| 48 <= c <= 57
    ||| c == 32 || c == 37 || c == 43 || c == 45 || c == 46 || c == 47
    ||| c == 58 || c == 61 || c == 91 || c == 93 || c == 95
}

/// The hollow box drawn for bytes without a glyph of their own.
pub open spec fn box_glyph() -> Seq<u8> {
    seq![0x7fu8, 0x41u8, 0x5du8, 0x41u8, 0x7fu8]
}

/// A glyph's five columns read as one number, first column highest.
spec fn glyph_code(g: Seq<u8>) -> int {
    (((g[0] * 256 + g[1]) * 256 + g[2]) * 256 + g[3]) * 256 + g[4]
}

/// The byte whose glyph has the code `n` (0 for a code of no such glyph).
spec fn code_char(n: int) -> u8 {
    if n == 541452210558 {
        65
    } else if n == 546690386230 {
        66
    } else if n == 267382767906 {
        67
    } else if n == 546555634204 {
        68
    } else if n == 546690386241 {
        69
    } else if n == 545612433665 {
        70
    } else if n == 267383294330 {
        71
    } else if n == 545595590783 {
        72
    } else if n == 1098858752 {
        73
    } else if n == 138516971265 {
        74
    } else if n == 545596383809 {
        75
    } else if n == 546538799168 {
        76
    } else if n == 545495188095 {
        77
    } else if n == 545528483967 {
        78
    } else if n == 267382767934 {
        79
    } else if n == 545612433670 {
        80
    } else if n == 267383808350 {
        81
    } else if n == 545613490502 {
        82
    } else if n == 301877250353 {
        83
    } else if n == 4320067841 {
        84
    } else if n == 271660892223 {
        85
    } else if n == 133685059615 {
        86
    } else if n == 271660367935 {
        87
    } else if n == 425537836131 {
        88
    } else if n == 30206330887 {
        89
    } else if n == 417975584067 {
        90
    } else if n == 267450405182 {
        48
    } else if n == 1098858496 {
        49
    } else if n == 422270552390 {
        50
    } else if n == 147124209974 {
        51
    } else if n == 103415971600 {
        52
    } else if n == 203093002545 {
        53
    } else if n == 267517511986 {
        54
    } else if n == 6191383811 {
        55
    } else if n == 233157773622 {
        56
    } else if n == 164438296894 {
        57
    } else if n == 1616904192 {
        46
    } else if n == 909508608 {
        58
    } else if n == 412585821187 {
        47
    } else if n == 34494482440 {
        45
    } else if n == 275955859520 {
        95
    } else if n == 425521079395 {
        37
    } else if n == 34498021384 {
        43
    } else if n == 546555625472 {
        91
    } else if n == 4276607 {
        93
    } else if n == 86236206100 {
        61
    } else if n == 0 {
        32
    } else {
        0
    }
}

proof fn lemma_code_char(c: u8)
    requires
        has_glyph(c),
    ensures
        code_char(glyph_code(font_glyph(c))) == c,
{
}

/// Every byte the font knows has a glyph of its own: two of them share a
/// glyph only when they are the same upper-case byte, and the box is drawn
/// exactly for the bytes the font does not know.
pub proof fn lemma_glyphs_distinct(a: u8, b: u8)
    ensures
        has_glyph(ascii_upper(a)) && has_glyph(ascii_upper(b)) ==> (font_glyph(ascii_upper(a))
            == font_glyph(ascii_upper(b)) <==> ascii_upper(a) == ascii_upper(b)),
        font_glyph(ascii_upper(a)) == box_glyph() <==> !has_glyph(ascii_upper(a)),
{
    let ua = ascii_upper(a);
    let ub = ascii_upper(b);
    if has_glyph(ua) {
        lemma_code_char(ua);
        assert(code_char(glyph_code(box_glyph())) == 0);
    }
    if has_glyph(ua) && has_glyph(ub) {
        lemma_code_char(ub);
    }
}

} // verus!
