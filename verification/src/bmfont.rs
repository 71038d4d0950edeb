//! Bitmap font.

use vstd::prelude::*;
use vstd::string::StringSliceAdditionalSpecFns;
use crate::gfx::{Blend, Color, SurfacePixels};
use crate::text::{chars_of, is_space, is_space_char};

verus! {

/// Intrinsic width of the bitmap font.
pub const NCOLUMNS: usize = 8;

/// Intrinsic height of the bitmap font.
pub const NROWS: usize = 16;

/// The number of glyphs of the bitmap font.
pub const NGLYPHS: usize = 96;

/// The number of words of the font data: two for each row of each glyph.
pub const NWORDS: usize = 3072;

/// The largest scale of a zoomed font, whose rows have to fit into their 32 bits.
pub const MAXZOOM: usize = 4;

/// 8x16 resizable bitmap font.
pub struct Font {
    /// Font data used for zoomed font reconstruction. This is actually an array of `u32`
    /// elements, where the first `u16` element forms upper 16 bits and the second forms lower
    /// 16 bits.
    ///
    /// One glyph has 16 `u32` elements for each row from the top to the bottom. One `u32`
    /// element contains eight four-bit groups for each column from the left (lowermost group)
    /// to the right (uppermost group). Each group is a bitwise OR of following bits:
    ///
    /// - 1: the lower right triangle of the zoomed pixel should be drawn.
    /// - 2: the lower left triangle of the zoomed pixel should be drawn.
    /// - 4: the upper right triangle of the zoomed pixel should be drawn.
    /// - 8: the upper left triangle of the zoomed pixel should be drawn.
    ///
    /// The group bits 15 (1+2+4+8) always draw the whole square, so in the zoom factor 1 only
    /// pixels with group bits 15 will be drawn.
    pub glyphs: Vec<u16>,
    /// Precalculated zoomed font per zoom factor. It is three-dimensional array which indices
    /// are zoom factor, glyph number and row respectively. Each element has zoom factor
    /// times 8 (columns per row) bits.
    pub pixels: Vec<Vec<Vec<u32>>>,
}

/// An alignment mode of `Font::print_string`.
#[derive(Clone, Copy, Debug, PartialEq, Eq, Structural)]
pub enum Alignment {
    /// Coordinates specify the top-left corner of the bounding box.
    LeftAligned,
    /// Coordinates specify the top-center point of the bounding box.
    Centered,
    /// Coordinates specify the top-right corner of the bounding box.
    RightAligned,
}

/// Delta-coded code words.
pub open spec fn font_dwords() -> Seq<u16> {
    seq![
        0u16, 2, 6, 2, 5, 32, 96, 97, 15, 497, 15, 1521, 15, 1537, 16, 48, 176, 1, 3, 1, 3, 7, 1, 4080, 4096, 3, 1, 8, 3, 4097, 4080, 16, 16128, 240, 1, 2, 9, 3, 8177, 15, 16385, 240, 15, 1, 47, 721, 143, 2673, 2, 6, 7, 1, 31, 17, 16, 63, 64, 33, 0, 1, 2, 1, 8, 3,
    ]
}

/// LZ77-compressed indices to code words:
/// - Byte 33..97 encodes a literal code word 0..64;
/// - Byte 98..126 encodes an LZ77 length distance pair with length 3..31;
///   the following byte 33..126 encodes a distance 1..94.
pub open spec fn font_indices() -> Seq<u8> {
    "!!7a/&/&s$7a!f!'M*Q*Qc$(O&J!!&J&Jc(e!2Q2Qc$-Bg2m!2bB[Q7Q2[e&2Q!Qi>&!&!>UT2T2&2>WT!c*T2GWc8icM2U2D!.8(M$UQCQ-jab!'U*2*2*2TXbZ252>9ZWk@*!*!*8(J$JlWi@cxQ!Q!d$#Q'O*?k@e2dfejcNl!&JTLTLG_&J>]c*&Jm@cB&J&J7[e(o>pJM$Qs<7[{Zj`Jm40!3!.8(M$U!C!-oR>UQ2U2]2a9Y[S[QCQ2GWk@*M*Q*B*!*!g$aQs`G8.M(U$[!Ca[o@Q2Q!IJQ!Q!c,GWk@787M6U2C2d!a[2!2k?!bnc32>[u`>Uc4d@b(q@abXU!D!.8(J&J&d$q`Q2IXu`g@Q2aWQ!q@!!ktk,x@M$Qk@3!.8(M$U!H#W'O,?4m_f!7[i&n!:eX5ghCk=>UQ2Q2U2Dc>J!!&J&b&k@J)LKg!GK!)7Wk@'8,M=UWCcfa[c&Q2l`f4If(Q2G[l@MSUQC!2!2c$Q:RWGOk@,[<2WfZQ2U2D2.l`a[eZ7f(!2b2|@b$j!>MSUQCc6[2W2Q:RWGOk@Q2Q2c$a[g*Ql`7[&J&Jk$7[l`!Qi$d^GWk@U2D2.9([$[#['[,@<2W2k@!2!2m$a[l`:^[a[a[T2Td~c$k@d2:R[V[a@_b|o@,M=UWCgZU:EW.Ok@>[g<G[!2!2d$k@Ug@Q2V2a2IW_!Wt`Ih*q`!2>WQ!Q!c,Gk_!7[&J&Jm$k@gti$m`k:U:EW.O(?s@T2Tb$a[CW2Qk@M+U:^[GbX,M>U`[WCO-l@'U,D<.W(O&J&Je$k@a[Q!U!]!G8.M(U$[!Ca[k@*Q!Q!l$b2m!+!:#W'O,?4!1n;c`*!*!l$h`'8,M=UWCO-pWz!a[i,#Q'O,?4~R>QQ!Q!aUQ2Q2Q2aWl=2!2!2>[e<c$G[p`dZcHd@l`czi|c$al@i`b:[!2Un`>8TJTJ&J7[&b&e$o`i~aWQ!c(hd2!2!2>[g@e$k]epi|e0i!bph(d$dbGWhA2!2U2D2.9(['[,@<2W2k`*J*?*!*!k$o!;[a[T2T2c$c~o@>[c6i$p@Uk>GW}`G[!2!2b$h!al`aWQ!Q!Qp`fVlZf@UWb6>eX:GWk<&J&J7[c&&JTJTb$G?o`c~i$m`k@U:EW.O(v`T2Tb$a[Fp`M+eZ,M=UWCO-u`Q:RWGO.A(M$U!Ck@a[]!G8.M(U$[!Ca[i:78&J&Jc$%[g*7?e<g0w$cD#iVAg*$[g~dB]NaaPGft~!f!7[.W(O".spec_bytes()
}

/// The code words: zero, then each one the sum of the one before and its delta, as far as
/// 16 bits hold it.
pub open spec fn code_words(dwords: Seq<u16>, n: int) -> Seq<u16>
    decreases n,
{
    if n <= 0 {
        seq![0u16]
    } else {
        let words = code_words(dwords, n - 1);
        words.push(((words.last() + dwords[n - 1]) % 0x1_0000) as u16)
    }
}

/// The words with `len` more, each a copy of the one at `start` words from the beginning, the
/// copies themselves included.
pub open spec fn repeated(out: Seq<u16>, start: int, len: int) -> Seq<u16>
    decreases len,
{
    if len <= 0 || start < 0 || start >= out.len() {
        out
    } else {
        repeated(out.push(out[start]), start + 1, len - 1)
    }
}

/// The words that the indices from `i` on stand for, after `out`, or `None` if an index is
/// none of a literal, of a pair of a length and a distance, or names a word that there is
/// not.
pub open spec fn inflated(words: Seq<u16>, indices: Seq<u8>, i: int, out: Seq<u16>) -> Option<
    Seq<u16>,
>
    decreases indices.len() - i,
{
    if i < 0 || i >= indices.len() {
        Some(out)
    } else {
        let code = indices[i];
        if 33 <= code <= 97 {
            if code - 33 < words.len() {
                inflated(words, indices, i + 1, out.push(words[code - 33]))
            } else {
                None
            }
        } else if 98 <= code <= 126 {
            if i + 1 < indices.len() && indices[i + 1] >= 33 && indices[i + 1] - 32 <= out.len() {
                inflated(
                    words,
                    indices,
                    i + 2,
                    repeated(out, out.len() - (indices[i + 1] - 32), code - 95),
                )
            } else {
                None
            }
        } else {
            None
        }
    }
}

/// The data of the font: the words that its indices stand for if they are as many as the
/// font needs, and as many zeros otherwise.
pub open spec fn font_data() -> Seq<u16> {
    match inflated(
        code_words(font_dwords(), font_dwords().len() as int),
        font_indices(),
        0,
        Seq::empty(),
    ) {
        Some(words) => if words.len() == NWORDS {
            words
        } else {
            Seq::new(NWORDS as nat, |i: int| 0u16)
        },
        None => Seq::new(NWORDS as nat, |i: int| 0u16),
    }
}

/// Returns the delta-coded code words.
fn dwords() -> (v: Vec<u16>)
    ensures
        v@ == font_dwords(),
{
    let v: Vec<u16> = vec![
        0u16, 2, 6, 2, 5, 32, 96, 97, 15, 497, 15, 1521, 15, 1537, 16, 48, 176, 1, 3, 1, 3, 7, 1, 4080, 4096, 3, 1, 8, 3, 4097, 4080, 16, 16128, 240, 1, 2, 9, 3, 8177, 15, 16385, 240, 15, 1, 47, 721, 143, 2673, 2, 6, 7, 1, 31, 17, 16, 63, 64, 33, 0, 1, 2, 1, 8, 3,
    ];
    assert(v@ =~= font_dwords());
    v
}

/// Returns the indices to code words.
fn indices() -> (s: &'static str)
    ensures
        s.spec_bytes() == font_indices(),
{
    "!!7a/&/&s$7a!f!'M*Q*Qc$(O&J!!&J&Jc(e!2Q2Qc$-Bg2m!2bB[Q7Q2[e&2Q!Qi>&!&!>UT2T2&2>WT!c*T2GWc8icM2U2D!.8(M$UQCQ-jab!'U*2*2*2TXbZ252>9ZWk@*!*!*8(J$JlWi@cxQ!Q!d$#Q'O*?k@e2dfejcNl!&JTLTLG_&J>]c*&Jm@cB&J&J7[e(o>pJM$Qs<7[{Zj`Jm40!3!.8(M$U!C!-oR>UQ2U2]2a9Y[S[QCQ2GWk@*M*Q*B*!*!g$aQs`G8.M(U$[!Ca[o@Q2Q!IJQ!Q!c,GWk@787M6U2C2d!a[2!2k?!bnc32>[u`>Uc4d@b(q@abXU!D!.8(J&J&d$q`Q2IXu`g@Q2aWQ!q@!!ktk,x@M$Qk@3!.8(M$U!H#W'O,?4m_f!7[i&n!:eX5ghCk=>UQ2Q2U2Dc>J!!&J&b&k@J)LKg!GK!)7Wk@'8,M=UWCcfa[c&Q2l`f4If(Q2G[l@MSUQC!2!2c$Q:RWGOk@,[<2WfZQ2U2D2.l`a[eZ7f(!2b2|@b$j!>MSUQCc6[2W2Q:RWGOk@Q2Q2c$a[g*Ql`7[&J&Jk$7[l`!Qi$d^GWk@U2D2.9([$[#['[,@<2W2k@!2!2m$a[l`:^[a[a[T2Td~c$k@d2:R[V[a@_b|o@,M=UWCgZU:EW.Ok@>[g<G[!2!2d$k@Ug@Q2V2a2IW_!Wt`Ih*q`!2>WQ!Q!c,Gk_!7[&J&Jm$k@gti$m`k:U:EW.O(?s@T2Tb$a[CW2Qk@M+U:^[GbX,M>U`[WCO-l@'U,D<.W(O&J&Je$k@a[Q!U!]!G8.M(U$[!Ca[k@*Q!Q!l$b2m!+!:#W'O,?4!1n;c`*!*!l$h`'8,M=UWCO-pWz!a[i,#Q'O,?4~R>QQ!Q!aUQ2Q2Q2aWl=2!2!2>[e<c$G[p`dZcHd@l`czi|c$al@i`b:[!2Un`>8TJTJ&J7[&b&e$o`i~aWQ!c(hd2!2!2>[g@e$k]epi|e0i!bph(d$dbGWhA2!2U2D2.9(['[,@<2W2k`*J*?*!*!k$o!;[a[T2T2c$c~o@>[c6i$p@Uk>GW}`G[!2!2b$h!al`aWQ!Q!Qp`fVlZf@UWb6>eX:GWk<&J&J7[c&&JTJTb$G?o`c~i$m`k@U:EW.O(v`T2Tb$a[Fp`M+eZ,M=UWCO-u`Q:RWGO.A(M$U!Ck@a[]!G8.M(U$[!Ca[i:78&J&Jc$%[g*7?e<g0w$cD#iVAg*$[g~dB]NaaPGft~!f!7[.W(O"
}

/// Decompresses a font data from `dwords` and `indices`.
pub fn decompress(dwords: &[u16], indices: &[u8]) -> (glyphs: Option<Vec<u16>>)
    ensures
        match glyphs {
            Some(g) => inflated(code_words(dwords@, dwords@.len() as int), indices@, 0, Seq::empty())
                == Some(g@),
            None => inflated(
                code_words(dwords@, dwords@.len() as int),
                indices@,
                0,
                Seq::empty(),
            ) is None,
        },
{
    let mut words: Vec<u16> = Vec::new();
    words.push(0);
    assert(words@ =~= code_words(dwords@, 0));
    let nd: usize = dwords.len();
    let mut k: usize = 0;
    while k < nd
        invariant
            nd == dwords@.len(),
            0 <= k <= nd,
            words@ == code_words(dwords@, k as int),
            words@.len() == k + 1,
        decreases nd - k,
    {
        let last: u16 = words[k];
        let next: u32 = (last as u32 + dwords[k] as u32) % 0x1_0000;
        words.push(next as u16);
        k += 1;
    }
    let nindices: usize = indices.len();
    let mut i: usize = 0;
    let mut glyphs: Vec<u16> = Vec::new();
    while i < nindices
        invariant
            nindices == indices@.len(),
            0 <= i <= nindices,
            words@ == code_words(dwords@, dwords@.len() as int),
            inflated(words@, indices@, i as int, glyphs@) == inflated(
                words@,
                indices@,
                0,
                Seq::empty(),
            ),
        decreases nindices - i,
    {
        let code: usize = indices[i] as usize;
        if 33 <= code && code <= 97 {
            if code - 33 >= words.len() {
                return None;
            }
            glyphs.push(words[code - 33]);
            i += 1;
        } else if 98 <= code && code <= 126 {
            if i + 1 >= nindices || indices[i + 1] < 33 {
                return None;
            }
            let length: usize = code - 95;  // code=98 -> length=3
            let distance: usize = indices[i + 1] as usize - 32;
            if distance > glyphs.len() {
                return None;
            }
            let start: usize = glyphs.len() - distance;
            let ghost before = glyphs@;
            let mut j: usize = 0;
            while j < length
                invariant
                    0 <= j <= length,
                    1 <= distance <= before.len(),
                    start == before.len() - distance,
                    glyphs@.len() == before.len() + j,
                    repeated(glyphs@, start + j, length - j) == repeated(
                        before,
                        start as int,
                        length as int,
                    ),
                decreases length - j,
            {
                let at: usize = glyphs.len() - distance;
                let word: u16 = glyphs[at];
                glyphs.push(word);
                j += 1;
            }
            i += 2;
        } else {
            return None;
        }
    }
    Some(glyphs)
}

/// Decompresses a bitmap font data. `Font::create_zoomed_font` is required for the actual
/// use.
#[allow(non_snake_case)]
pub fn Font() -> (font: Font)
    ensures
        font.wf(),
        font.glyphs@ == font_data(),
        font.pixels@.len() == 0,
{
    let dwords = dwords();
    let glyphs = match decompress(dwords.as_slice(), indices().as_bytes()) {
        Some(g) => if g.len() == NWORDS {
            g
        } else {
            zeros()
        },
        None => zeros(),
    };
    Font { glyphs: glyphs, pixels: Vec::new() }
}

/// Returns the data of a font without any pixel.
fn zeros() -> (v: Vec<u16>)
    ensures
        v@ == Seq::new(NWORDS as nat, |i: int| 0u16),
{
    let mut v: Vec<u16> = Vec::new();
    let mut i: usize = 0;
    while i < NWORDS
        invariant
            0 <= i <= NWORDS,
            v@ == Seq::new(i as nat, |k: int| 0u16),
        decreases NWORDS - i,
    {
        v.push(0);
        i += 1;
        assert(v@ =~= Seq::new(i as nat, |k: int| 0u16));
    }
    v
}

/// True if the bit of number `x` of the word is set.
pub open spec fn bit(word: u32, x: u32) -> bool {
    (word >> x) & 1 == 1
}

/// The four-bit group of a glyph at the given row and column of the font data.
pub open spec fn group(glyphs: Seq<u16>, glyph: int, row: int, col: int) -> u32 {
    let data = ((glyphs[(glyph * 16 + row) * 2] as u32) << 16) | (glyphs[(glyph * 16 + row) * 2
        + 1] as u32);
    (data >> ((4 * col) as u32)) & 15
}

/// True if a pixel of the font with the given group covers the place `(c, r)` of its zoomed
/// square: the whole square for the group 15, else each of the four corner triangles whose
/// bit is set. The diagonals belong to no triangle but to the lower right one.
pub open spec fn covers(v: u32, r: int, c: int, zoom: int) -> bool {
    ||| v == 15
    ||| (r + c >= zoom && v & 1 != 0)
    ||| (r > c && v & 2 != 0)
    ||| (r < c && v & 4 != 0)
    ||| (r + c < zoom - 1 && v & 8 != 0)
}

/// True if the pixel `(x, y)` of a glyph is drawn at the given zoom.
pub open spec fn lit(glyphs: Seq<u16>, zoom: int, glyph: int, x: int, y: int) -> bool {
    covers(group(glyphs, glyph, y / zoom, x / zoom), y % zoom, x % zoom, zoom)
}

/// True if the word holds the row `y` of a glyph at the given zoom: a bit for each pixel of
/// the row that is drawn, from the lowest bit on, and no other.
pub open spec fn row_ok(glyphs: Seq<u16>, zoom: int, glyph: int, y: int, word: u32) -> bool {
    forall|x: u32| x < 32 ==> #[trigger] bit(word, x) == (x < 8 * zoom && lit(glyphs, zoom, glyph, x as int, y))
}

/// True if the table holds the zoomed font of the given zoom: for each glyph, each of its
/// rows.
pub open spec fn zoomed(glyphs: Seq<u16>, zoom: int, table: Vec<Vec<u32>>) -> bool {
    &&& 1 <= zoom <= MAXZOOM
    &&& table@.len() == NGLYPHS
    &&& forall|g: int|
        0 <= g < NGLYPHS ==> (#[trigger] table@[g])@.len() == 16 * zoom && forall|y: int|
            0 <= y < 16 * zoom ==> row_ok(glyphs, zoom, g, y, #[trigger] table@[g]@[y])
}

/// The glyph of a character: those of the characters from the space to `}` in their order,
/// the first one for any other.
pub open spec fn glyph_of(c: char) -> int {
    if 32 <= c as u32 && (c as u32) < 126 {
        c as u32 - 32
    } else {
        0
    }
}

/// The pixels that a glyph printed at `(x0, y0)` covers.
pub open spec fn glyph_hits(glyphs: Seq<u16>, zoom: int, glyph: int, x0: int, y0: int) -> spec_fn(
    int,
    int,
) -> bool {
    |px: int, py: int|
        x0 <= px < x0 + 8 * zoom && y0 <= py < y0 + 16 * zoom && lit(
            glyphs,
            zoom,
            glyph,
            px - x0,
            py - y0,
        )
}

/// The color of each pixel of a glyph printed at the height `y0`: that of its row.
pub open spec fn glyph_color<C: Blend>(color: C, zoom: int, y0: int) -> spec_fn(int, int) -> Color {
    |px: int, py: int| color.blend_spec(py - y0, 16 * zoom)
}

/// True if `after` is `before` with the character printed at `(x0, y0)`: white space prints
/// nothing.
pub open spec fn char_printed<C: Blend>(
    glyphs: Seq<u16>,
    before: &SurfacePixels,
    after: &SurfacePixels,
    c: char,
    x0: int,
    y0: int,
    zoom: int,
    color: C,
) -> bool {
    if is_space(c) {
        after.painted(before, |px: int, py: int| false, glyph_color(color, zoom, y0))
    } else {
        after.painted(
            before,
            glyph_hits(glyphs, zoom, glyph_of(c), x0, y0),
            glyph_color(color, zoom, y0),
        )
    }
}

/// True if the surfaces are the stages of printing the first `n` characters one after the
/// other from `(x0, y0)` on, each eight columns of the zoomed font further right: each stage
/// is the one before it with its character printed.
pub open spec fn printing<C: Blend>(
    glyphs: Seq<u16>,
    stages: Seq<SurfacePixels>,
    chars: Seq<char>,
    n: int,
    x0: int,
    y0: int,
    zoom: int,
    color: C,
) -> bool {
    &&& stages.len() == n + 1
    &&& forall|k: int|
        0 <= k < n ==> char_printed(
            glyphs,
            &stages[k],
            &#[trigger] stages[k + 1],
            chars[k],
            x0 + k * 8 * zoom,
            y0,
            zoom,
            color,
        )
}

/// True if `after` is `before` with the first `n` characters printed one after the other
/// from `(x0, y0)` on.
pub open spec fn string_printed<C: Blend>(
    glyphs: Seq<u16>,
    before: &SurfacePixels,
    after: &SurfacePixels,
    chars: Seq<char>,
    n: int,
    x0: int,
    y0: int,
    zoom: int,
    color: C,
) -> bool {
    exists|stages: Seq<SurfacePixels>|
        #[trigger] printing(glyphs, stages, chars, n, x0, y0, zoom, color) && stages[0] == *before
            && stages[n] == *after
}

/// The number of characters that are printed from the `k`-th on: a character is printed as
/// long as its right edge lies left of the right edge of the surface.
pub open spec fn printed_count(len: int, k: int, x0: int, zoom: int, width: int) -> int
    decreases len - k,
{
    if k < len && x0 + (k + 1) * 8 * zoom < width {
        printed_count(len, k + 1, x0, zoom, width)
    } else {
        k
    }
}

/// The left edge of a text of `len` characters aligned at `x`, not left of the left edge of
/// the surface.
pub open spec fn aligned(align: Alignment, x: int, len: int, zoom: int) -> int {
    let left = match align {
        Alignment::LeftAligned => x,
        Alignment::Centered => x - len * (8 * zoom) / 2,
        Alignment::RightAligned => x - len * (8 * zoom),
    };
    if left < 0 {
        0
    } else {
        left
    }
}

/// A bit that is set is set, and no other bit changes.
proof fn lemma_bit_set(w: u32, x: u32, j: u32)
    requires
        x < 32,
        j < 32,
    ensures
        bit(w | (1u32 << x), j) == (j == x || bit(w, j)),
{
    assert((((w | (1u32 << x)) >> j) & 1 == 1) == (j == x || ((w >> j) & 1 == 1)))
        by (bit_vector)
        requires
            x < 32,
            j < 32,
    ;
}

/// No bit of zero is set.
proof fn lemma_bit_zero(j: u32)
    requires
        j < 32,
    ensures
        !bit(0u32, j),
{
    assert((0u32 >> j) & 1 == 0) by (bit_vector)
        requires
            j < 32,
    ;
}

/// Tells whether the bit of number `x` of the word is set.
pub fn has_bit(word: u32, x: u32) -> (r: bool)
    requires
        x < 32,
    ensures
        r == bit(word, x),
{
    (word >> x) & 1 == 1
}

impl Font {
    /// A font is well formed if it has the data of all its glyphs, and each zoomed font that
    /// it has is the one of its zoom.
    pub open spec fn wf(&self) -> bool {
        &&& self.glyphs@.len() == NWORDS
        &&& forall|z: int|
            0 <= z < self.pixels@.len() ==> (#[trigger] self.pixels@[z])@.len() == 0 || zoomed(
                self.glyphs@,
                z,
                self.pixels@[z],
            )
    }

    /// True if the font has the zoomed font of the given zoom.
    pub open spec fn has_zoom(&self, zoom: int) -> bool {
        0 <= zoom < self.pixels@.len() && self.pixels@[zoom]@.len() > 0
    }

    /// Tells whether the font has the zoomed font of the given zoom.
    pub fn is_zoomed(&self, zoom: usize) -> (r: bool)
        ensures
            r == self.has_zoom(zoom as int),
    {
        zoom < self.pixels.len() && self.pixels[zoom].len() > 0
    }

    /// Calculates the row `y` of a glyph at the given zoom.
    fn zoomed_row(&self, zoom: usize, glyph: usize, y: usize) -> (word: u32)
        requires
            self.glyphs@.len() == NWORDS,
            1 <= zoom <= MAXZOOM,
            glyph < NGLYPHS,
            y < 16 * zoom,
        ensures
            row_ok(self.glyphs@, zoom as int, glyph as int, y as int, word),
    {
        let row: usize = y / zoom;
        let r: usize = y % zoom;
        assert(row < 16) by (nonlinear_arith)
            requires
                row == y / zoom,
                y < 16 * zoom,
                zoom >= 1,
        ;
        let i: usize = (glyph * 16 + row) * 2;
        let data: u32 = ((self.glyphs[i] as u32) << 16) | (self.glyphs[i + 1] as u32);
        let mut word: u32 = 0;
        let mut x: usize = 0;
        proof {
            assert forall|j: u32| j < 32 implies !#[trigger] bit(0u32, j) by {
                lemma_bit_zero(j);
            }
        }
        while x < 8 * zoom
            invariant
                self.glyphs@.len() == NWORDS,
                1 <= zoom <= MAXZOOM,
                glyph < NGLYPHS,
                row == y / zoom,
                r == y % zoom,
                row < 16,
                i == (glyph * 16 + row) * 2,
                data == ((self.glyphs@[i as int] as u32) << 16) | (self.glyphs@[i + 1] as u32),
                0 <= x <= 8 * zoom,
                forall|j: u32|
                    j < 32 ==> #[trigger] bit(word, j) == (j < x && lit(
                        self.glyphs@,
                        zoom as int,
                        glyph as int,
                        j as int,
                        y as int,
                    )),
            decreases 8 * zoom - x,
        {
            let col: usize = x / zoom;
            let c: usize = x % zoom;
            assert(col < 8) by (nonlinear_arith)
                requires
                    col == x / zoom,
                    x < 8 * zoom,
                    zoom >= 1,
            ;
            let v: u32 = (data >> ((4 * col) as u32)) & 15;
            let drawn = v == 15 || (r + c >= zoom && v & 1 != 0) || (r > c && v & 2 != 0) || (r
                < c && v & 4 != 0) || (r + c + 1 < zoom && v & 8 != 0);
            assert(drawn == lit(self.glyphs@, zoom as int, glyph as int, x as int, y as int));
            let ghost before = word;
            if drawn {
                word = word | (1u32 << (x as u32));
            }
            proof {
                assert forall|j: u32| j < 32 implies #[trigger] bit(word, j) == (j < x + 1 && lit(
                    self.glyphs@,
                    zoom as int,
                    glyph as int,
                    j as int,
                    y as int,
                )) by {
                    if drawn {
                        lemma_bit_set(before, x as u32, j);
                    }
                }
            }
            x += 1;
        }
        word
    }

    /// Calculates the zoomed font of the given zoom.
    fn zoomed_table(&self, zoom: usize) -> (table: Vec<Vec<u32>>)
        requires
            self.glyphs@.len() == NWORDS,
            1 <= zoom <= MAXZOOM,
        ensures
            zoomed(self.glyphs@, zoom as int, table),
    {
        let mut table: Vec<Vec<u32>> = Vec::new();
        let mut glyph: usize = 0;
        while glyph < NGLYPHS
            invariant
                self.glyphs@.len() == NWORDS,
                1 <= zoom <= MAXZOOM,
                0 <= glyph <= NGLYPHS,
                table@.len() == glyph,
                forall|g: int|
                    0 <= g < glyph ==> (#[trigger] table@[g])@.len() == 16 * zoom && forall|y: int|
                        0 <= y < 16 * zoom ==> row_ok(
                            self.glyphs@,
                            zoom as int,
                            g,
                            y,
                            #[trigger] table@[g]@[y],
                        ),
            decreases NGLYPHS - glyph,
        {
            let mut rows: Vec<u32> = Vec::new();
            let mut y: usize = 0;
            while y < 16 * zoom
                invariant
                    self.glyphs@.len() == NWORDS,
                    1 <= zoom <= MAXZOOM,
                    glyph < NGLYPHS,
                    0 <= y <= 16 * zoom,
                    rows@.len() == y,
                    forall|k: int|
                        0 <= k < y ==> row_ok(
                            self.glyphs@,
                            zoom as int,
                            glyph as int,
                            k,
                            #[trigger] rows@[k],
                        ),
                decreases 16 * zoom - y,
            {
                rows.push(self.zoomed_row(zoom, glyph, y));
                y += 1;
            }
            table.push(rows);
            glyph += 1;
        }
        table
    }

    /// Creates a zoomed font of scale `zoom`, unless the font has it already.
    pub fn create_zoomed_font(&mut self, zoom: usize)
        requires
            old(self).wf(),
            0 < zoom <= MAXZOOM,
        ensures
            final(self).wf(),
            final(self).has_zoom(zoom as int),
            final(self).glyphs == old(self).glyphs,
            final(self).pixels@.len() >= old(self).pixels@.len(),
            forall|z: int|
                0 <= z < old(self).pixels@.len() && z != zoom ==> final(self).pixels@[z] == old(
                    self,
                ).pixels@[z],
            forall|z: int|
                old(self).pixels@.len() <= z < final(self).pixels@.len() && z != zoom ==> (
                #[trigger] final(self).pixels@[z])@.len() == 0,
            old(self).has_zoom(zoom as int) ==> final(self).pixels == old(self).pixels,
    {
        if self.is_zoomed(zoom) {
            return ;
        }
        let table = self.zoomed_table(zoom);
        while self.pixels.len() <= zoom
            invariant
                self.glyphs == old(self).glyphs,
                self.pixels@.len() >= old(self).pixels@.len(),
                forall|z: int|
                    0 <= z < old(self).pixels@.len() ==> self.pixels@[z] == old(self).pixels@[z],
                forall|z: int|
                    old(self).pixels@.len() <= z < self.pixels@.len() ==> (
                    #[trigger] self.pixels@[z])@.len() == 0,
            decreases zoom + 1 - self.pixels@.len(),
        {
            self.pixels.push(Vec::new());
        }
        self.pixels.set(zoom, table);
    }

    /// Prints a glyph with given position and color (possibly gradient). This method is
    /// distinct from `print_char` since the glyph #95 is used for the tick marker. What of
    /// the glyph lies outside the surface is not printed.
    pub fn print_glyph<ColorT: Blend + Copy>(
        &self,
        pixels: &mut SurfacePixels,
        x: usize,
        y: usize,
        zoom: usize,
        glyph: usize,
        color: ColorT,
    )
        requires
            self.wf(),
            self.has_zoom(zoom as int),
            glyph < NGLYPHS,
            old(pixels).wf(),
        ensures
            final(pixels).painted(
                old(pixels),
                glyph_hits(self.glyphs@, zoom as int, glyph as int, x as int, y as int),
                glyph_color(color, zoom as int, y as int),
            ),
    {
        let height: usize = NROWS * zoom;
        let width: usize = NCOLUMNS * zoom;
        let mut iy: usize = 0;
        while iy < height
            invariant
                self.wf(),
                self.has_zoom(zoom as int),
                zoomed(self.glyphs@, zoom as int, self.pixels@[zoom as int]),
                glyph < NGLYPHS,
                height == 16 * zoom,
                width == 8 * zoom,
                0 <= iy <= height,
                pixels.painted(
                    old(pixels),
                    |px: int, py: int|
                        x <= px < x + 8 * zoom && y <= py < y + iy && lit(
                            self.glyphs@,
                            zoom as int,
                            glyph as int,
                            px - x,
                            py - y,
                        ),
                    glyph_color(color, zoom as int, y as int),
                ),
            decreases height - iy,
        {
            let row: u32 = self.pixels[zoom][glyph][iy];
            assert(row_ok(self.glyphs@, zoom as int, glyph as int, iy as int, row));
            let rowcolor = color.blend(iy as i32, height as i32);
            let mut ix: usize = 0;
            while ix < width
                invariant
                    height == 16 * zoom,
                    width == 8 * zoom,
                    1 <= zoom <= MAXZOOM,
                    0 <= iy < height,
                    0 <= ix <= width,
                    row_ok(self.glyphs@, zoom as int, glyph as int, iy as int, row),
                    rowcolor == color.blend_spec(iy as int, 16 * zoom),
                    pixels.painted(
                        old(pixels),
                        |px: int, py: int|
                            x <= px < x + 8 * zoom && lit(
                                self.glyphs@,
                                zoom as int,
                                glyph as int,
                                px - x,
                                py - y,
                            ) && (y <= py < y + iy || (py == y + iy && px < x + ix)),
                        glyph_color(color, zoom as int, y as int),
                    ),
                decreases width - ix,
            {
                let ghost prev = *pixels;
                if has_bit(row, ix as u32) {
                    assert(bit(row, ix as u32));
                    assert(lit(self.glyphs@, zoom as int, glyph as int, ix as int, iy as int));
                    if ix <= usize::MAX - x && iy <= usize::MAX - y {
                        pixels.put_pixel(x + ix, y + iy, rowcolor);
                    }
                } else {
                    assert(!bit(row, ix as u32));
                    assert(!lit(self.glyphs@, zoom as int, glyph as int, ix as int, iy as int));
                }
                ix += 1;
                assert forall|px: int, py: int|
                    0 <= px < pixels.width && 0 <= py < pixels.height implies #[trigger] pixels.at(
                    px,
                    py,
                ) == if x <= px < x + 8 * zoom && lit(
                    self.glyphs@,
                    zoom as int,
                    glyph as int,
                    px - x,
                    py - y,
                ) && (y <= py < y + iy || (py == y + iy && px < x + ix)) {
                    color.blend_spec(py - y, 16 * zoom)
                } else {
                    old(pixels).at(px, py)
                } by {
                    assert(prev.at(px, py) == if x <= px < x + 8 * zoom && lit(
                        self.glyphs@,
                        zoom as int,
                        glyph as int,
                        px - x,
                        py - y,
                    ) && (y <= py < y + iy || (py == y + iy && px < x + ix - 1)) {
                        color.blend_spec(py - y, 16 * zoom)
                    } else {
                        old(pixels).at(px, py)
                    });
                }
            }
            iy += 1;
        }
    }

    /// Prints a character with given position and color.
    pub fn print_char<ColorT: Blend + Copy>(
        &self,
        pixels: &mut SurfacePixels,
        x: usize,
        y: usize,
        zoom: usize,
        c: char,
        color: ColorT,
    )
        requires
            self.wf(),
            self.has_zoom(zoom as int),
            old(pixels).wf(),
        ensures
            char_printed(
                self.glyphs@,
                old(pixels),
                final(pixels),
                c,
                x as int,
                y as int,
                zoom as int,
                color,
            ),
    {
        if !is_space_char(c) {
            let code: u32 = c as u32;
            let glyph: usize = if 32 <= code && code < 126 {
                (code - 32) as usize
            } else {
                0
            };
            self.print_glyph(pixels, x, y, zoom, glyph, color);
        }
    }

    /// Prints a string with given position, alignment and color. A character whose right
    /// edge would not lie left of the right edge of the surface is not printed, nor is any
    /// after it.
    pub fn print_string<ColorT: Blend + Copy>(
        &self,
        pixels: &mut SurfacePixels,
        x: usize,
        y: usize,
        zoom: usize,
        align: Alignment,
        s: &str,
        color: ColorT,
    )
        requires
            self.wf(),
            self.has_zoom(zoom as int),
            old(pixels).wf(),
        ensures
            ({
                let left = aligned(align, x as int, s@.len() as int, zoom as int);
                string_printed(
                    self.glyphs@,
                    old(pixels),
                    final(pixels),
                    s@,
                    printed_count(s@.len() as int, 0, left, zoom as int, old(pixels).width as int),
                    left,
                    y as int,
                    zoom as int,
                    color,
                )
            }),
    {
        assert(zoomed(self.glyphs@, zoom as int, self.pixels@[zoom as int]));
        let chars = chars_of(s);
        let n: usize = chars.len();
        let step: usize = NCOLUMNS * zoom;
        assert(0 <= n * step <= 0xffff_ffff_ffff_ffff * 32) by (nonlinear_arith)
            requires
                0 <= n <= 0xffff_ffff_ffff_ffff,
                0 <= step <= 32,
        ;
        assert(n * (8 * zoom) == n * step) by (nonlinear_arith)
            requires
                step == 8 * zoom,
        ;
        let wide: u128 = (n as u128) * (step as u128);
        let back: u128 = match align {
            Alignment::LeftAligned => 0,
            Alignment::Centered => wide / 2,
            Alignment::RightAligned => wide,
        };
        let left: usize = if back > x as u128 {
            0
        } else {
            x - back as usize
        };
        assert(left == aligned(align, x as int, s@.len() as int, zoom as int));
        let mut at: usize = left;
        let mut k: usize = 0;
        let ghost mut stages: Seq<SurfacePixels> = seq![*pixels];
        assert(0 * step == 0) by (nonlinear_arith);
        while k < n && step < pixels.width && at < pixels.width - step
            invariant
                self.wf(),
                self.has_zoom(zoom as int),
                1 <= zoom <= MAXZOOM,
                step == 8 * zoom,
                pixels.wf(),
                pixels.width == old(pixels).width,
                n == chars@.len(),
                chars@ == s@,
                0 <= k <= n,
                at == left + k * step,
                at + step == left + (k + 1) * 8 * zoom,
                printed_count(n as int, k as int, left as int, zoom as int, pixels.width as int)
                    == printed_count(n as int, 0, left as int, zoom as int, pixels.width as int),
                stages[0] == *old(pixels),
                stages[k as int] == *pixels,
                printing(
                    self.glyphs@,
                    stages,
                    s@,
                    k as int,
                    left as int,
                    y as int,
                    zoom as int,
                    color,
                ),
            decreases n - k,
        {
            let ghost mid = *pixels;
            let ghost earlier = stages;
            self.print_char(pixels, at, y, zoom, chars[k], color);
            assert(left + k * 8 * zoom == at) by (nonlinear_arith)
                requires
                    at == left + k * step,
                    step == 8 * zoom,
            ;
            proof {
                stages = earlier.push(*pixels);
                assert forall|j: int| 0 <= j < k + 1 implies char_printed(
                    self.glyphs@,
                    &stages[j],
                    &#[trigger] stages[j + 1],
                    s@[j],
                    left + j * 8 * zoom,
                    y as int,
                    zoom as int,
                    color,
                ) by {
                    if j < k {
                        assert(stages[j] == earlier[j]);
                        assert(stages[j + 1] == earlier[j + 1]);
                    } else {
                        assert(stages[j] == mid);
                        assert(stages[j + 1] == *pixels);
                    }
                }
            }
            at = at + step;
            k += 1;
            assert(at == left + k * step && at + step == left + (k + 1) * 8 * zoom)
                by (nonlinear_arith)
                requires
                    at == left + (k - 1) * step + step,
                    step == 8 * zoom,
            ;
        }
    }
}

} // verus!
