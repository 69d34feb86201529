//! Bitmap-font text: the menu titles and the frame counter are drawn by
//! blitting fixed-size cells out of PNG atlas textures. The atlases are
//! decoded from PNG bytes; the cell arithmetic is exact.

use vstd::prelude::*;

use crate::geometry::{Extent, Pos, Rect};

verus! {

/// A decoded RGBA image: one byte per channel, four per pixel, rows
/// top-down.
pub struct Bitmap {
    pub width: u32,
    pub height: u32,
    pub pixels: Vec<u8>,
}

/// What decoding a byte string as a PNG and converting to RGBA yields:
/// a function of the bytes alone.
pub uninterp spec fn png_rgba(bytes: Seq<u8>) -> Option<(u32, u32, Seq<u8>)>;

/// Relies on image::load_from_memory_with_format with the PNG format and
/// DynamicImage::to_rgba8: decoding is a function of the bytes alone, and
/// the RGBA buffer holds exactly four bytes per pixel.
#[verifier::external_body]
fn decode_png_rgba(bytes: &Vec<u8>) -> (r: Option<Bitmap>)
    ensures
        match r {
            Some(b) => png_rgba(bytes@) == Some((b.width, b.height, b.pixels@)) && b.pixels@.len()
                == 4 * b.width * b.height,
            None => png_rgba(bytes@) is None,
        },
{
    match image::load_from_memory_with_format(bytes.as_slice(), image::ImageFormat::Png) {
        Ok(img) => {
            let rgba = img.to_rgba8();
            let width = rgba.width();
            let height = rgba.height();
            Some(Bitmap { width, height, pixels: rgba.into_raw() })
        },
        Err(_) => None,
    }
}

/// Width and height of one glyph cell in the font atlas.
pub const GLYPH_W: u32 = 20;

pub const GLYPH_H: u32 = 38;

/// Horizontal stride between cells and the left inset of a cell.
pub const GLYPH_STRIDE: u32 = 38;

pub const GLYPH_INSET: u32 = 9;

/// Glyphs per atlas row.
pub const GLYPHS_PER_ROW: u32 = 26;

/// Where a byte's glyph sits in the font atlas: bytes from 2 on, laid out
/// row-major, 26 to a row, in cells of 38 by 38 with the 20-wide glyph
/// inset 9 from the left.
pub open spec fn spec_glyph_rect(letter: u8) -> Rect
    recommends
        letter >= 2,
{
    let index = (letter - 2) as int;
    let row = index / (GLYPHS_PER_ROW as int);
    let col = index % (GLYPHS_PER_ROW as int);
    Rect {
        loc: Pos {
            x: (col * GLYPH_STRIDE + GLYPH_INSET) as i32,
            y: (row * GLYPH_STRIDE) as i32,
        },
        size: Extent { w: GLYPH_W, h: GLYPH_H },
    }
}

/// The source rectangle of one byte's glyph.
pub fn glyph_rect(letter: u8) -> (r: Rect)
    requires
        letter >= 2,
    ensures
        r == spec_glyph_rect(letter),
{
    let index = (letter - 2) as u32;
    let row = index / GLYPHS_PER_ROW;
    let col = index % GLYPHS_PER_ROW;
    Rect {
        loc: Pos { x: (col * GLYPH_STRIDE + GLYPH_INSET) as i32, y: (row * GLYPH_STRIDE) as i32 },
        size: Extent { w: GLYPH_W, h: GLYPH_H },
    }
}

/// The rightmost and bottommost pixels any glyph of a byte can touch.
pub const GLYPH_ATLAS_MIN_W: u32 = 979;

pub const GLYPH_ATLAS_MIN_H: u32 = 380;

/// Decode a font atlas from PNG bytes and accept it only when it is large
/// enough to hold every glyph cell a byte can index.
pub fn load_glyph_atlas(bytes: &Vec<u8>) -> (r: Option<Bitmap>)
    ensures
        match r {
            Some(b) => png_rgba(bytes@) == Some((b.width, b.height, b.pixels@)) && b.width
                >= GLYPH_ATLAS_MIN_W && b.height >= GLYPH_ATLAS_MIN_H && b.pixels@.len() == 4
                * b.width * b.height,
            None => png_rgba(bytes@) is None || (png_rgba(bytes@) matches Some((w, h, _))
                && !(w >= GLYPH_ATLAS_MIN_W && h >= GLYPH_ATLAS_MIN_H)),
        },
{
    match decode_png_rgba(bytes) {
        Some(b) => {
            if b.width >= GLYPH_ATLAS_MIN_W && b.height >= GLYPH_ATLAS_MIN_H {
                Some(b)
            } else {
                None
            }
        },
        None => None,
    }
}

/// One text blit: a source cell of an atlas texture placed at an absolute
/// physical position.
#[derive(Clone, Copy, Debug, PartialEq, Eq, Structural)]
pub struct GlyphOp {
    pub src: Rect,
    pub dst_x: i64,
    pub dst_y: i64,
    pub dst_w: u32,
    pub dst_h: u32,
}

/// The blit of the string's character at position `i`, at the given scale in
/// thousandths: glyphs advance by their own width.
pub open spec fn spec_string_op(
    text: Seq<u8>,
    i: int,
    scale_millis: u32,
    origin: Pos,
) -> GlyphOp
    recommends
        0 <= i < text.len(),
        text[i] >= 2,
{
    GlyphOp {
        src: spec_glyph_rect(text[i]),
        dst_x: (origin.x + i * GLYPH_W * scale_millis / 1000) as i64,
        dst_y: origin.y as i64,
        dst_w: (GLYPH_W * scale_millis / 1000) as u32,
        dst_h: (GLYPH_H * scale_millis / 1000) as u32,
    }
}

/// Lay a byte string out as glyph blits, left to right from `origin`.
pub fn string_ops(text: &Vec<u8>, scale_millis: u32, origin: Pos) -> (r: Vec<GlyphOp>)
    requires
        scale_millis <= 1_000_000,
        text@.len() <= 100_000,
        forall|i: int| 0 <= i < text@.len() ==> text@[i] >= 2,
    ensures
        r@.len() == text@.len(),
        forall|i: int|
            0 <= i < text@.len() ==> r@[i] == spec_string_op(text@, i, scale_millis, origin),
{
    let mut out: Vec<GlyphOp> = Vec::new();
    let mut i: usize = 0;
    while i < text.len()
        invariant
            i <= text@.len(),
            scale_millis <= 1_000_000,
            text@.len() <= 100_000,
            forall|j: int| 0 <= j < text@.len() ==> text@[j] >= 2,
            out@.len() == i,
            forall|j: int|
                0 <= j < i ==> out@[j] == spec_string_op(text@, j, scale_millis, origin),
        decreases text@.len() - i,
    {
        let src = glyph_rect(text[i]);
        proof {
            assert((i as u64) * (GLYPH_W as u64) * (scale_millis as u64) <= 100_000u64 * 20
                * 1_000_000) by (nonlinear_arith)
                requires
                    i as u64 <= 100_000,
                    scale_millis as u64 <= 1_000_000,
            ;
            assert((i as u64) * (GLYPH_W as u64) * (scale_millis as u64) == i * GLYPH_W
                * scale_millis) by (nonlinear_arith)
                requires
                    i as u64 <= 100_000,
                    scale_millis as u64 <= 1_000_000,
            ;
        }
        let advance = (i as u64) * (GLYPH_W as u64) * (scale_millis as u64) / 1000;
        out.push(
            GlyphOp {
                src,
                dst_x: origin.x as i64 + advance as i64,
                dst_y: origin.y as i64,
                dst_w: (GLYPH_W * scale_millis / 1000) as u32,
                dst_h: (GLYPH_H * scale_millis / 1000) as u32,
            },
        );
        i += 1;
    }
    out
}

/// Keep only the bytes a glyph exists for; control bytes below 2 have no
/// cell in the atlas.
pub fn printable_bytes(text: &Vec<u8>) -> (r: Vec<u8>)
    ensures
        r@ == text@.filter(|b: u8| b >= 2),
{
    broadcast use vstd::seq_lib::group_seq_lib_default;

    let mut out: Vec<u8> = Vec::new();
    let mut i: usize = 0;
    while i < text.len()
        invariant
            i <= text@.len(),
            out@ == text@.take(i as int).filter(|b: u8| b >= 2),
        decreases text@.len() - i,
    {
        proof {
            assert(text@.take(i as int + 1) =~= text@.take(i as int) + seq![text@[i as int]]);
            Seq::filter_distributes_over_add(
                text@.take(i as int),
                seq![text@[i as int]],
                |b: u8| b >= 2,
            );
            reveal_with_fuel(Seq::filter, 2);
            assert(seq![text@[i as int]].filter(|b: u8| b >= 2) =~= if text@[i as int] >= 2 {
                seq![text@[i as int]]
            } else {
                Seq::empty()
            });
        }
        let b = text[i];
        if b >= 2 {
            out.push(b);
        }
        i += 1;
    }
    proof {
        assert(text@.take(text@.len() as int) =~= text@);
    }
    out
}

/// Where each decimal digit's cell sits in the frame-counter atlas.
pub open spec fn spec_digit_rect(d: u8) -> Rect
    recommends
        d <= 9,
{
    let xy: (int, int) = if d == 9 {
        (0, 0)
    } else if d == 6 {
        (22, 0)
    } else if d == 3 {
        (44, 0)
    } else if d == 1 {
        (66, 0)
    } else if d == 8 {
        (0, 35)
    } else if d == 0 {
        (22, 35)
    } else if d == 2 {
        (44, 35)
    } else if d == 7 {
        (0, 70)
    } else if d == 4 {
        (22, 70)
    } else {
        (44, 70)
    };
    Rect { loc: Pos { x: xy.0 as i32, y: xy.1 as i32 }, size: Extent { w: 22, h: 35 } }
}

pub fn digit_rect(d: u8) -> (r: Rect)
    requires
        d <= 9,
    ensures
        r == spec_digit_rect(d),
{
    let x: i32;
    let y: i32;
    if d == 9 {
        x = 0;
        y = 0;
    } else if d == 6 {
        x = 22;
        y = 0;
    } else if d == 3 {
        x = 44;
        y = 0;
    } else if d == 1 {
        x = 66;
        y = 0;
    } else if d == 8 {
        x = 0;
        y = 35;
    } else if d == 0 {
        x = 22;
        y = 35;
    } else if d == 2 {
        x = 44;
        y = 35;
    } else if d == 7 {
        x = 0;
        y = 70;
    } else if d == 4 {
        x = 22;
        y = 70;
    } else {
        x = 44;
        y = 70;
    }
    Rect { loc: Pos { x, y }, size: Extent { w: 22, h: 35 } }
}

/// The decimal digits of a number, most significant first.
pub open spec fn spec_digits(n: nat) -> Seq<u8>
    decreases n,
{
    if n < 10 {
        seq![n as u8]
    } else {
        spec_digits(n / 10).push((n % 10) as u8)
    }
}

fn push_digits(n: u32, out: &mut Vec<u8>)
    ensures
        final(out)@ == old(out)@ + spec_digits(n as nat),
    decreases n,
{
    if n < 10 {
        out.push(n as u8);
        proof {
            assert(out@ =~= old(out)@ + spec_digits(n as nat));
        }
    } else {
        push_digits(n / 10, out);
        out.push((n % 10) as u8);
        proof {
            assert(out@ =~= old(out)@ + spec_digits(n as nat));
        }
    }
}

/// The frame-counter blits for a value: its decimal digits left to right,
/// cells 24 scaled units apart.
pub fn fps_ops(value: u32, scale_millis: u32) -> (r: Vec<GlyphOp>)
    requires
        scale_millis <= 1_000_000,
    ensures
        r@.len() == spec_digits(value as nat).len(),
        forall|i: int|
            0 <= i < r@.len() ==> r@[i] == (GlyphOp {
                src: spec_digit_rect(spec_digits(value as nat)[i]),
                dst_x: (i * 24 * scale_millis / 1000) as i64,
                dst_y: 0,
                dst_w: (22 * scale_millis / 1000) as u32,
                dst_h: (35 * scale_millis / 1000) as u32,
            }),
{
    let mut digits: Vec<u8> = Vec::new();
    push_digits(value, &mut digits);
    proof {
        lemma_digits_bounded(value as nat);
        lemma_digits_len(value as nat);
        assert(digits@ =~= spec_digits(value as nat));
    }
    let mut out: Vec<GlyphOp> = Vec::new();
    let mut i: usize = 0;
    while i < digits.len()
        invariant
            i <= digits@.len(),
            scale_millis <= 1_000_000,
            digits@ == spec_digits(value as nat),
            digits@.len() <= 10,
            forall|j: int| 0 <= j < digits@.len() ==> digits@[j] <= 9,
            out@.len() == i,
            forall|j: int|
                0 <= j < i ==> out@[j] == (GlyphOp {
                    src: spec_digit_rect(digits@[j]),
                    dst_x: (j * 24 * scale_millis / 1000) as i64,
                    dst_y: 0,
                    dst_w: (22 * scale_millis / 1000) as u32,
                    dst_h: (35 * scale_millis / 1000) as u32,
                }),
        decreases digits@.len() - i,
    {
        let src = digit_rect(digits[i]);
        proof {
            assert((i as u64) * 24 * (scale_millis as u64) <= 10u64 * 24 * 1_000_000)
                by (nonlinear_arith)
                requires
                    i as u64 <= 10,
                    scale_millis as u64 <= 1_000_000,
            ;
            assert((i as u64) * 24 * (scale_millis as u64) == i * 24 * scale_millis)
                by (nonlinear_arith)
                requires
                    i as u64 <= 10,
                    scale_millis as u64 <= 1_000_000,
            ;
        }
        let advance = (i as u64) * 24 * (scale_millis as u64) / 1000;
        out.push(
            GlyphOp {
                src,
                dst_x: advance as i64,
                dst_y: 0,
                dst_w: (22 * scale_millis / 1000) as u32,
                dst_h: (35 * scale_millis / 1000) as u32,
            },
        );
        i += 1;
    }
    out
}

/// Every decimal digit is below ten.
proof fn lemma_digits_bounded(n: nat)
    ensures
        forall|i: int| 0 <= i < spec_digits(n).len() ==> spec_digits(n)[i] <= 9,
    decreases n,
{
    if n < 10 {
        assert(spec_digits(n) =~= seq![n as u8]);
    } else {
        lemma_digits_bounded(n / 10);
        assert forall|i: int| 0 <= i < spec_digits(n).len() implies spec_digits(n)[i] <= 9 by {
            if i < spec_digits(n).len() - 1 {
                assert(spec_digits(n)[i] == spec_digits(n / 10)[i]);
            } else {
                assert(spec_digits(n)[i] == (n % 10) as u8);
            }
        }
    }
}

spec fn pow10(k: nat) -> nat
    decreases k,
{
    if k == 0 {
        1
    } else {
        10 * pow10((k - 1) as nat)
    }
}

proof fn lemma_digits_len_at_most(n: nat, k: nat)
    requires
        k >= 1,
        n < pow10(k),
    ensures
        1 <= spec_digits(n).len() <= k,
    decreases n,
{
    if n < 10 {
        assert(spec_digits(n) =~= seq![n as u8]);
    } else {
        if k == 1 {
            assert(pow10(1) == 10 * pow10(0));
            assert(false);
        }
        assert(pow10(k) == 10 * pow10((k - 1) as nat));
        assert(n / 10 < pow10((k - 1) as nat)) by (nonlinear_arith)
            requires
                n < 10 * pow10((k - 1) as nat),
                n >= 10,
        ;
        lemma_digits_len_at_most(n / 10, (k - 1) as nat);
    }
}

/// A 32-bit number has at most ten decimal digits.
proof fn lemma_digits_len(n: nat)
    requires
        n <= u32::MAX,
    ensures
        1 <= spec_digits(n).len() <= 10,
{
    reveal_with_fuel(pow10, 11);
    assert(pow10(10) == 10_000_000_000);
    lemma_digits_len_at_most(n, 10);
}

} // verus!
