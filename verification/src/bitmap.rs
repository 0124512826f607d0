//! Page-format monochrome bitmaps, as SSD1306 displays store them.
//!
//! A bitmap of `cols` columns is a sequence of pages, each `cols` bytes long;
//! byte `page * cols + col` holds 8 vertical pixels of column `col`, bit 0 at
//! the top, so pixel `(col, page * 8 + bit)` is lit when
//! `(data[page * cols + col] >> bit) & 1` is 1.

use vstd::prelude::*;

verus! {

/// A lit pixel of the display.
#[derive(Clone, Copy, Debug, PartialEq, Eq, Structural)]
pub struct Pixel {
    pub x: i32,
    pub y: i32,
}

/// Whether bit `bit` of `byte` is set.
pub open spec fn bit_lit(byte: u8, bit: u32) -> bool {
    (byte >> bit) & 1u8 == 1u8
}

/// The lit pixels among the lowest `n` bits of `byte`, top to bottom, for a
/// byte drawn in column `x` with its top pixel in row `y0`.
pub open spec fn byte_pixels(byte: u8, x: int, y0: int, n: nat) -> Seq<Pixel>
    decreases n,
{
    if n == 0 {
        Seq::empty()
    } else {
        let before = byte_pixels(byte, x, y0, (n - 1) as nat);
        if bit_lit(byte, (n - 1) as u32) {
            before.push(Pixel { x: x as i32, y: (y0 + n - 1) as i32 })
        } else {
            before
        }
    }
}

/// The lit pixels of the first `c` columns of page `page`, left to right.
pub open spec fn page_pixels(
    data: Seq<u8>,
    cols: nat,
    offset_x: int,
    offset_y: int,
    page: nat,
    c: nat,
) -> Seq<Pixel>
    decreases c,
{
    if c == 0 {
        Seq::empty()
    } else {
        page_pixels(data, cols, offset_x, offset_y, page, (c - 1) as nat) + byte_pixels(
            data[page * cols + c - 1],
            c - 1 + offset_x,
            page * 8 + offset_y,
            8,
        )
    }
}

/// The lit pixels of the first `p` pages, page by page.
pub open spec fn pages_pixels(data: Seq<u8>, cols: nat, offset_x: int, offset_y: int, p: nat) -> Seq<
    Pixel,
>
    decreases p,
{
    if p == 0 {
        Seq::empty()
    } else {
        pages_pixels(data, cols, offset_x, offset_y, (p - 1) as nat) + page_pixels(
            data,
            cols,
            offset_x,
            offset_y,
            (p - 1) as nat,
            cols,
        )
    }
}

/// The lit pixels of a whole bitmap of `cols` columns, drawn with its
/// top-left corner at `(offset_x, offset_y)`, in drawing order: page by page,
/// column by column, top to bottom. Bytes after the last full page are not
/// part of the bitmap.
pub open spec fn bitmap_pixels(data: Seq<u8>, cols: nat, offset_x: int, offset_y: int) -> Seq<Pixel> {
    pages_pixels(data, cols, offset_x, offset_y, data.len() / cols)
}

/// The positions of all the lit pixels of a bitmap are computed without
/// overflow: their column and row and both moved by the offset fit in `i32`.
pub open spec fn pixels_fit(data: Seq<u8>, cols: nat, offset_x: int, offset_y: int) -> bool {
    forall|page: nat, col: nat, bit: u32|
        page < data.len() / cols && col < cols && bit < 8 && #[trigger] lit_at(
            data,
            cols,
            page,
            col,
            bit,
        ) ==> {
            &&& col <= i32::MAX
            &&& col + offset_x <= i32::MAX
            &&& page * 8 + bit <= i32::MAX
            &&& page * 8 + bit + offset_y <= i32::MAX
        }
}

/// A bound on the size and place of a bitmap under which all its pixel
/// positions fit in `i32`, whatever bits are set.
pub open spec fn bitmap_fits(data_len: nat, cols: nat, offset_x: int, offset_y: int) -> bool {
    &&& 0 < cols <= 0x8000_0000
    &&& cols + offset_x <= 0x8000_0000
    &&& (data_len / cols) * 8 <= 0x8000_0000
    &&& (data_len / cols) * 8 + offset_y <= 0x8000_0000
}

/// Under the size bound, every lit pixel's position fits.
pub proof fn lemma_bitmap_fits(data: Seq<u8>, cols: nat, offset_x: int, offset_y: int)
    requires
        bitmap_fits(data.len(), cols, offset_x, offset_y),
        i32::MIN <= offset_x,
        i32::MIN <= offset_y,
    ensures
        pixels_fit(data, cols, offset_x, offset_y),
{
}

proof fn lemma_byte_index(len: nat, cols: nat, page: nat, col: nat)
    requires
        0 < cols,
        page < len / cols,
        col < cols,
    ensures
        page * cols + col < len,
        page * cols + col < (page + 1) * cols,
{
    let q = len / cols;
    vstd::arithmetic::div_mod::lemma_fundamental_div_mod(len as int, cols as int);
    assert(page * cols + col < (page + 1) * cols) by (nonlinear_arith)
        requires
            col < cols,
    ;
    assert((page + 1) * cols <= q * cols) by (nonlinear_arith)
        requires
            page + 1 <= q,
            0 < cols,
    ;
}

/// Draws the lit pixels of a page-format bitmap of `cols` columns with its
/// top-left corner at `(offset_x, offset_y)`: appends them to `pixels`.
pub fn draw_page_format_frame(
    pixels: &mut Vec<Pixel>,
    data: &[u8],
    cols: usize,
    offset_x: i32,
    offset_y: i32,
)
    requires
        0 < cols,
        pixels_fit(data@, cols as nat, offset_x as int, offset_y as int),
    ensures
        final(pixels)@ == old(pixels)@ + bitmap_pixels(
            data@,
            cols as nat,
            offset_x as int,
            offset_y as int,
        ),
{
    let len = data.len();
    let pages = len / cols;
    let ghost start = pixels@;
    let ghost d = data@;
    let ghost c = cols as nat;
    let ghost ox = offset_x as int;
    let ghost oy = offset_y as int;
    let mut page: usize = 0;
    while page < pages
        invariant
            pages == data@.len() / (cols as nat),
            len == data@.len(),
            d == data@,
            c == cols,
            ox == offset_x,
            oy == offset_y,
            0 < cols,
            pixels_fit(data@, cols as nat, offset_x as int, offset_y as int),
            page <= pages,
            pixels@ == start + pages_pixels(d, c, ox, oy, page as nat),
        decreases pages - page,
    {
        let mut col: usize = 0;
        while col < cols
            invariant
                pages == data@.len() / (cols as nat),
                len == data@.len(),
                d == data@,
                c == cols,
                ox == offset_x,
                oy == offset_y,
                0 < cols,
            pixels_fit(data@, cols as nat, offset_x as int, offset_y as int),
                page < pages,
                col <= cols,
                pixels@ == start + pages_pixels(d, c, ox, oy, page as nat) + page_pixels(
                    d,
                    c,
                    ox,
                    oy,
                    page as nat,
                    col as nat,
                ),
            decreases cols - col,
        {
            proof {
                lemma_byte_index(data@.len(), cols as nat, page as nat, col as nat);
                assert((page as int) * (cols as int) + (col as int) < len);
            }
            let byte = data[page * cols + col];
            let ghost before = pixels@;
            let ghost x = col + ox;
            let ghost y0 = page * 8 + oy;
            if byte != 0 {
                let mut bit: u32 = 0;
                while bit < 8
                    invariant
                        bit <= 8,
                        page < pages,
                        col < cols,
                        x == col + ox,
                        y0 == page * 8 + oy,
                        byte == data@[page * cols + col],
                        pages == data@.len() / (cols as nat),
                        0 < cols,
            pixels_fit(data@, cols as nat, offset_x as int, offset_y as int),
                        ox == offset_x,
                        oy == offset_y,
                        pixels@ == before + byte_pixels(byte, x, y0, bit as nat),
                    decreases 8 - bit,
                {
                    let lit = byte & (1u8 << bit) != 0;
                    assert(lit == bit_lit(byte, bit)) by (bit_vector)
                        requires
                            bit < 8,
                            lit == (byte & (1u8 << bit) != 0),
                    ;
                    if lit {
                        assert(lit_at(data@, cols as nat, page as nat, col as nat, bit));
                        let px = col as i32 + offset_x;
                        let py = page as i32 * 8 + bit as i32 + offset_y;
                        pixels.push(Pixel { x: px, y: py });
                    }
                    bit = bit + 1;
                }
            } else {
                assert forall|k: u32| k < 8 implies !bit_lit(byte, k) by {
                    assert(byte == 0u8 && k < 8 ==> (byte >> k) & 1u8 == 0u8) by (bit_vector);
                }
                assert(byte_pixels(byte, x, y0, 8) == Seq::<Pixel>::empty()) by {
                    reveal_with_fuel(byte_pixels, 9);
                }
            }
            assert(page_pixels(d, c, ox, oy, page as nat, (col + 1) as nat) == page_pixels(
                d,
                c,
                ox,
                oy,
                page as nat,
                col as nat,
            ) + byte_pixels(byte, x, y0, 8));
            col = col + 1;
        }
        assert(pages_pixels(d, c, ox, oy, (page + 1) as nat) == pages_pixels(
            d,
            c,
            ox,
            oy,
            page as nat,
        ) + page_pixels(d, c, ox, oy, page as nat, c));
        page = page + 1;
    }
}

/// Whether the pixel of bit `bit` of column `col` of page `page` is lit.
pub open spec fn lit_at(data: Seq<u8>, cols: nat, page: nat, col: nat, bit: u32) -> bool {
    bit_lit(data[(page * cols + col) as int], bit)
}

/// The pixel that bit `bit` of column `col` of page `page` stands for.
pub open spec fn pixel_of(offset_x: int, offset_y: int, page: nat, col: nat, bit: u32) -> Pixel {
    Pixel { x: (col + offset_x) as i32, y: (page * 8 + bit + offset_y) as i32 }
}

/// The pixel of bit `b` of a byte drawn in column `x` from row `y0`.
pub open spec fn bit_pixel(x: int, y0: int, b: u32) -> Pixel {
    Pixel { x: x as i32, y: (y0 + b) as i32 }
}

/// Whether `p` is the pixel of one of the lowest `n` bits of `byte` that is
/// set.
pub open spec fn from_lit_bit(byte: u8, x: int, y0: int, n: nat, p: Pixel) -> bool {
    exists|b: u32| b < n && #[trigger] bit_lit(byte, b) && p == bit_pixel(x, y0, b)
}

proof fn lemma_byte_pixels(byte: u8, x: int, y0: int, n: nat)
    requires
        n <= 8,
    ensures
        forall|b: u32|
            b < n && #[trigger] bit_lit(byte, b) ==> byte_pixels(byte, x, y0, n).contains(
                bit_pixel(x, y0, b),
            ),
        forall|i: int|
            0 <= i < byte_pixels(byte, x, y0, n).len() ==> #[trigger] from_lit_bit(
                byte,
                x,
                y0,
                n,
                byte_pixels(byte, x, y0, n)[i],
            ),
    decreases n,
{
    if n > 0 {
        let m = (n - 1) as nat;
        lemma_byte_pixels(byte, x, y0, m);
        let before = byte_pixels(byte, x, y0, m);
        let s = byte_pixels(byte, x, y0, n);
        assert forall|b: u32| b < n && #[trigger] bit_lit(byte, b) implies s.contains(
            bit_pixel(x, y0, b),
        ) by {
            let v = bit_pixel(x, y0, b);
            if b < m {
                assert(before.contains(v));
                let i = choose|i: int| 0 <= i < before.len() && before[i] == v;
                assert(s[i] == v);
            } else {
                assert(s[s.len() - 1] == v);
            }
        }
        assert forall|i: int| 0 <= i < s.len() implies #[trigger] from_lit_bit(
            byte,
            x,
            y0,
            n,
            s[i],
        ) by {
            if i < before.len() {
                assert(s[i] == before[i]);
                assert(from_lit_bit(byte, x, y0, m, before[i]));
                let b = choose|b: u32| b < m && #[trigger] bit_lit(byte, b) && before[i] == bit_pixel(x, y0, b);
                assert(bit_lit(byte, b));
            } else {
                let b = m as u32;
                assert(bit_lit(byte, b));
                assert(s[i] == bit_pixel(x, y0, b));
            }
        }
    } else {
        assert(byte_pixels(byte, x, y0, n).len() == 0);
    }
}

/// Whether `p` is the pixel of a set bit in the first `c` columns of page
/// `page`.
pub open spec fn from_lit_column(
    data: Seq<u8>,
    cols: nat,
    offset_x: int,
    offset_y: int,
    page: nat,
    c: nat,
    p: Pixel,
) -> bool {
    exists|col: nat, bit: u32|
        col < c && bit < 8 && #[trigger] lit_at(data, cols, page, col, bit) && p == pixel_of(
            offset_x,
            offset_y,
            page,
            col,
            bit,
        )
}

/// Whether `p` is the pixel of a set bit in one of the first `pages` pages.
pub open spec fn from_lit_page(
    data: Seq<u8>,
    cols: nat,
    offset_x: int,
    offset_y: int,
    pages: nat,
    p: Pixel,
) -> bool {
    exists|page: nat, col: nat, bit: u32|
        page < pages && col < cols && bit < 8 && #[trigger] lit_at(data, cols, page, col, bit) && p
            == pixel_of(offset_x, offset_y, page, col, bit)
}

proof fn lemma_page_pixels(
    data: Seq<u8>,
    cols: nat,
    offset_x: int,
    offset_y: int,
    page: nat,
    c: nat,
)
    ensures
        forall|col: nat, bit: u32|
            col < c && bit < 8 && #[trigger] lit_at(data, cols, page, col, bit) ==> page_pixels(
                data,
                cols,
                offset_x,
                offset_y,
                page,
                c,
            ).contains(pixel_of(offset_x, offset_y, page, col, bit)),
        forall|i: int|
            0 <= i < page_pixels(data, cols, offset_x, offset_y, page, c).len()
                ==> #[trigger] from_lit_column(
                data,
                cols,
                offset_x,
                offset_y,
                page,
                c,
                page_pixels(data, cols, offset_x, offset_y, page, c)[i],
            ),
    decreases c,
{
    if c > 0 {
        let m = (c - 1) as nat;
        lemma_page_pixels(data, cols, offset_x, offset_y, page, m);
        let before = page_pixels(data, cols, offset_x, offset_y, page, m);
        let byte = data[page * cols + c - 1];
        let x = c - 1 + offset_x;
        let y0 = page * 8 + offset_y;
        lemma_byte_pixels(byte, x, y0, 8);
        let bp = byte_pixels(byte, x, y0, 8);
        let s = page_pixels(data, cols, offset_x, offset_y, page, c);
        assert(s == before + bp);
        assert forall|col: nat, bit: u32|
            col < c && bit < 8 && #[trigger] lit_at(data, cols, page, col, bit) implies s.contains(
            pixel_of(offset_x, offset_y, page, col, bit),
        ) by {
            let v = pixel_of(offset_x, offset_y, page, col, bit);
            if col < m {
                assert(before.contains(v));
                let i = choose|i: int| 0 <= i < before.len() && before[i] == v;
                assert(s[i] == v);
            } else {
                assert(col == m);
                assert(bit_lit(byte, bit));
                assert(v == bit_pixel(x, y0, bit));
                assert(bp.contains(v));
                let j = choose|j: int| 0 <= j < bp.len() && bp[j] == v;
                assert(s[before.len() + j] == v);
            }
        }
        assert forall|i: int| 0 <= i < s.len() implies #[trigger] from_lit_column(
            data,
            cols,
            offset_x,
            offset_y,
            page,
            c,
            s[i],
        ) by {
            if i < before.len() {
                assert(s[i] == before[i]);
                assert(from_lit_column(data, cols, offset_x, offset_y, page, m, before[i]));
                let (col, bit) = choose|col: nat, bit: u32|
                    col < m && bit < 8 && #[trigger] lit_at(data, cols, page, col, bit) && before[i]
                        == pixel_of(offset_x, offset_y, page, col, bit);
                assert(lit_at(data, cols, page, col, bit));
            } else {
                let j = i - before.len();
                assert(s[i] == bp[j]);
                assert(from_lit_bit(byte, x, y0, 8, bp[j]));
                let b = choose|b: u32| b < 8 && #[trigger] bit_lit(byte, b) && bp[j] == bit_pixel(x, y0, b);
                assert(lit_at(data, cols, page, m, b));
                assert(s[i] == pixel_of(offset_x, offset_y, page, m, b));
            }
        }
    }
}

proof fn lemma_pages_pixels(data: Seq<u8>, cols: nat, offset_x: int, offset_y: int, p: nat)
    ensures
        forall|page: nat, col: nat, bit: u32|
            page < p && col < cols && bit < 8 && #[trigger] lit_at(data, cols, page, col, bit)
                ==> pages_pixels(data, cols, offset_x, offset_y, p).contains(
                pixel_of(offset_x, offset_y, page, col, bit),
            ),
        forall|i: int|
            0 <= i < pages_pixels(data, cols, offset_x, offset_y, p).len() ==> #[trigger] from_lit_page(
                data,
                cols,
                offset_x,
                offset_y,
                p,
                pages_pixels(data, cols, offset_x, offset_y, p)[i],
            ),
    decreases p,
{
    if p > 0 {
        let m = (p - 1) as nat;
        lemma_pages_pixels(data, cols, offset_x, offset_y, m);
        lemma_page_pixels(data, cols, offset_x, offset_y, m, cols);
        let before = pages_pixels(data, cols, offset_x, offset_y, m);
        let pp = page_pixels(data, cols, offset_x, offset_y, m, cols);
        let s = pages_pixels(data, cols, offset_x, offset_y, p);
        assert(s == before + pp);
        assert forall|page: nat, col: nat, bit: u32|
            page < p && col < cols && bit < 8 && #[trigger] lit_at(
                data,
                cols,
                page,
                col,
                bit,
            ) implies s.contains(pixel_of(offset_x, offset_y, page, col, bit)) by {
            let v = pixel_of(offset_x, offset_y, page, col, bit);
            if page < m {
                assert(before.contains(v));
                let i = choose|i: int| 0 <= i < before.len() && before[i] == v;
                assert(s[i] == v);
            } else {
                assert(pp.contains(v));
                let j = choose|j: int| 0 <= j < pp.len() && pp[j] == v;
                assert(s[before.len() + j] == v);
            }
        }
        assert forall|i: int| 0 <= i < s.len() implies #[trigger] from_lit_page(
            data,
            cols,
            offset_x,
            offset_y,
            p,
            s[i],
        ) by {
            if i < before.len() {
                assert(s[i] == before[i]);
                assert(from_lit_page(data, cols, offset_x, offset_y, m, before[i]));
                let (page, col, bit) = choose|page: nat, col: nat, bit: u32|
                    page < m && col < cols && bit < 8 && #[trigger] lit_at(
                        data,
                        cols,
                        page,
                        col,
                        bit,
                    ) && before[i] == pixel_of(offset_x, offset_y, page, col, bit);
                assert(lit_at(data, cols, page, col, bit));
            } else {
                let j = i - before.len();
                assert(s[i] == pp[j]);
                assert(from_lit_column(data, cols, offset_x, offset_y, m, cols, pp[j]));
                let (col, bit) = choose|col: nat, bit: u32|
                    col < cols && bit < 8 && #[trigger] lit_at(data, cols, m, col, bit) && pp[j]
                        == pixel_of(offset_x, offset_y, m, col, bit);
                assert(lit_at(data, cols, m, col, bit));
            }
        }
    }
}

/// The page format: the pixels drawn for a bitmap are exactly the pixels
/// `(col, page * 8 + bit)`, moved by the offset, whose bit is set in byte
/// `page * cols + col`, for every full page, column and bit.
pub proof fn lemma_bitmap_pixels_exact(data: Seq<u8>, cols: nat, offset_x: int, offset_y: int)
    requires
        0 < cols,
    ensures
        forall|page: nat, col: nat, bit: u32|
            page < data.len() / cols && col < cols && bit < 8 && #[trigger] lit_at(
                data,
                cols,
                page,
                col,
                bit,
            ) ==> bitmap_pixels(data, cols, offset_x, offset_y).contains(
                pixel_of(offset_x, offset_y, page, col, bit),
            ),
        forall|i: int|
            0 <= i < bitmap_pixels(data, cols, offset_x, offset_y).len() ==> #[trigger] from_lit_page(
                data,
                cols,
                offset_x,
                offset_y,
                data.len() / cols,
                bitmap_pixels(data, cols, offset_x, offset_y)[i],
            ),
{
    lemma_pages_pixels(data, cols, offset_x, offset_y, data.len() / cols);
}

/// Byte `col` of page `page`.
pub open spec fn page_byte(data: Seq<u8>, cols: nat, page: nat, col: nat) -> u8 {
    data[(page * cols + col) as int]
}

proof fn lemma_page_pixels_agree(
    d1: Seq<u8>,
    d2: Seq<u8>,
    cols: nat,
    offset_x: int,
    offset_y: int,
    page: nat,
    c: nat,
)
    requires
        forall|col: nat| col < c ==> #[trigger] page_byte(d1, cols, page, col) == page_byte(d2, cols, page, col),
    ensures
        page_pixels(d1, cols, offset_x, offset_y, page, c) == page_pixels(
            d2,
            cols,
            offset_x,
            offset_y,
            page,
            c,
        ),
    decreases c,
{
    if c > 0 {
        let m = (c - 1) as nat;
        lemma_page_pixels_agree(d1, d2, cols, offset_x, offset_y, page, m);
        assert(page_byte(d1, cols, page, m) == page_byte(d2, cols, page, m));
    }
}

proof fn lemma_pages_pixels_agree(
    d1: Seq<u8>,
    d2: Seq<u8>,
    cols: nat,
    offset_x: int,
    offset_y: int,
    p: nat,
)
    requires
        forall|i: int| 0 <= i < p * cols ==> d1[i] == d2[i],
    ensures
        pages_pixels(d1, cols, offset_x, offset_y, p) == pages_pixels(
            d2,
            cols,
            offset_x,
            offset_y,
            p,
        ),
    decreases p,
{
    if p > 0 {
        let m = (p - 1) as nat;
        assert forall|i: int| 0 <= i < m * cols implies d1[i] == d2[i] by {
            assert(m * cols <= p * cols) by (nonlinear_arith)
                requires
                    m <= p,
            ;
        }
        lemma_pages_pixels_agree(d1, d2, cols, offset_x, offset_y, m);
        assert forall|col: nat| col < cols implies #[trigger] page_byte(d1, cols, m, col) == page_byte(
            d2,
            cols,
            m,
            col,
        ) by {
            assert(m * cols + col < p * cols) by (nonlinear_arith)
                requires
                    col < cols,
                    p == m + 1,
            ;
        }
        lemma_page_pixels_agree(d1, d2, cols, offset_x, offset_y, m, cols);
    }
}

/// Bytes after the last full page are not drawn: a bitmap draws what its
/// full pages alone draw.
pub proof fn lemma_partial_page_ignored(data: Seq<u8>, cols: nat, offset_x: int, offset_y: int)
    requires
        0 < cols,
    ensures
        bitmap_pixels(data, cols, offset_x, offset_y) == bitmap_pixels(
            data.take((cols * (data.len() / cols)) as int),
            cols,
            offset_x,
            offset_y,
        ),
{
    let n = data.len() / cols;
    vstd::arithmetic::div_mod::lemma_fundamental_div_mod(data.len() as int, cols as int);
    vstd::arithmetic::div_mod::lemma_mod_pos_bound(data.len() as int, cols as int);
    let full = data.take((cols * n) as int);
    assert(full.len() == cols * n);
    vstd::arithmetic::div_mod::lemma_div_multiples_vanish(n as int, cols as int);
    assert(full.len() / cols == n);
    assert(cols * n == n * cols) by (nonlinear_arith);
    lemma_pages_pixels_agree(data, full, cols, offset_x, offset_y, n);
}

proof fn lemma_or_bits(a: u8, b: u8, bit: u32)
    requires
        bit < 8,
    ensures
        bit_lit(a | b, bit) <==> bit_lit(a, bit) || bit_lit(b, bit),
        !bit_lit(0u8, bit),
{
    assert(((a | b) >> bit) & 1u8 == 1u8 <==> (a >> bit) & 1u8 == 1u8 || (b >> bit) & 1u8 == 1u8)
        by (bit_vector)
        requires
            bit < 8,
    ;
    assert((0u8 >> bit) & 1u8 == 0u8) by (bit_vector);
}

/// Drawing the bitwise OR of two bitmaps of the same size lights exactly the
/// pixels that either of them lights.
pub proof fn lemma_bitmap_or(
    a: Seq<u8>,
    b: Seq<u8>,
    o: Seq<u8>,
    cols: nat,
    offset_x: int,
    offset_y: int,
)
    requires
        0 < cols,
        a.len() == o.len(),
        b.len() == o.len(),
        forall|i: int| 0 <= i < o.len() ==> #[trigger] o[i] == a[i] | b[i],
    ensures
        forall|p: Pixel|
            #[trigger] bitmap_pixels(o, cols, offset_x, offset_y).contains(p) <==> bitmap_pixels(
                a,
                cols,
                offset_x,
                offset_y,
            ).contains(p) || bitmap_pixels(b, cols, offset_x, offset_y).contains(p),
{
    let n = o.len() / cols;
    let po = bitmap_pixels(o, cols, offset_x, offset_y);
    let pa = bitmap_pixels(a, cols, offset_x, offset_y);
    let pb = bitmap_pixels(b, cols, offset_x, offset_y);
    lemma_bitmap_pixels_exact(o, cols, offset_x, offset_y);
    lemma_bitmap_pixels_exact(a, cols, offset_x, offset_y);
    lemma_bitmap_pixels_exact(b, cols, offset_x, offset_y);
    assert forall|page: nat, col: nat, bit: u32|
        page < n && col < cols && bit < 8 implies (lit_at(o, cols, page, col, bit) <==> lit_at(
            a,
            cols,
            page,
            col,
            bit,
        ) || lit_at(b, cols, page, col, bit)) by {
        lemma_byte_index(o.len(), cols, page, col);
        let i = (page * cols + col) as int;
        assert(o[i] == a[i] | b[i]);
        lemma_or_bits(a[i], b[i], bit);
    }
    assert forall|p: Pixel| #[trigger] po.contains(p) implies pa.contains(p) || pb.contains(p) by {
        let i = choose|i: int| 0 <= i < po.len() && po[i] == p;
        assert(from_lit_page(o, cols, offset_x, offset_y, n, po[i]));
        let (page, col, bit) = choose|page: nat, col: nat, bit: u32|
            page < n && col < cols && bit < 8 && #[trigger] lit_at(o, cols, page, col, bit) && po[i]
                == pixel_of(offset_x, offset_y, page, col, bit);
        if lit_at(a, cols, page, col, bit) {
            assert(pa.contains(pixel_of(offset_x, offset_y, page, col, bit)));
        } else {
            assert(lit_at(b, cols, page, col, bit));
            assert(pb.contains(pixel_of(offset_x, offset_y, page, col, bit)));
        }
    }
    assert forall|p: Pixel| pa.contains(p) || pb.contains(p) implies #[trigger] po.contains(p) by {
        if pa.contains(p) {
            let i = choose|i: int| 0 <= i < pa.len() && pa[i] == p;
            assert(from_lit_page(a, cols, offset_x, offset_y, n, pa[i]));
            let (page, col, bit) = choose|page: nat, col: nat, bit: u32|
                page < n && col < cols && bit < 8 && #[trigger] lit_at(a, cols, page, col, bit)
                    && pa[i] == pixel_of(offset_x, offset_y, page, col, bit);
            assert(lit_at(o, cols, page, col, bit));
        } else {
            let i = choose|i: int| 0 <= i < pb.len() && pb[i] == p;
            assert(from_lit_page(b, cols, offset_x, offset_y, n, pb[i]));
            let (page, col, bit) = choose|page: nat, col: nat, bit: u32|
                page < n && col < cols && bit < 8 && #[trigger] lit_at(b, cols, page, col, bit)
                    && pb[i] == pixel_of(offset_x, offset_y, page, col, bit);
            assert(lit_at(o, cols, page, col, bit));
        }
    }
}

/// A bitmap of zero bytes draws nothing.
pub proof fn lemma_blank_bitmap(data: Seq<u8>, cols: nat, offset_x: int, offset_y: int)
    requires
        0 < cols,
        forall|i: int| 0 <= i < data.len() ==> #[trigger] data[i] == 0u8,
    ensures
        bitmap_pixels(data, cols, offset_x, offset_y).len() == 0,
{
    let n = data.len() / cols;
    let px = bitmap_pixels(data, cols, offset_x, offset_y);
    lemma_bitmap_pixels_exact(data, cols, offset_x, offset_y);
    if px.len() > 0 {
        assert(from_lit_page(data, cols, offset_x, offset_y, n, px[0]));
        let (page, col, bit) = choose|page: nat, col: nat, bit: u32|
            page < n && col < cols && bit < 8 && #[trigger] lit_at(data, cols, page, col, bit)
                && px[0] == pixel_of(offset_x, offset_y, page, col, bit);
        lemma_byte_index(data.len(), cols, page, col);
        assert(data[(page * cols + col) as int] == 0u8);
        lemma_or_bits(0u8, 0u8, bit);
    }
}

/// A pixel moved by `(dx, dy)`.
pub open spec fn shifted(p: Pixel, dx: int, dy: int) -> Pixel {
    Pixel { x: (p.x + dx) as i32, y: (p.y + dy) as i32 }
}

/// Every pixel moved by `(dx, dy)`, in the same order.
pub open spec fn shift_all(pixels: Seq<Pixel>, dx: int, dy: int) -> Seq<Pixel> {
    pixels.map_values(|p: Pixel| shifted(p, dx, dy))
}

proof fn lemma_shift_concat(a: Seq<Pixel>, b: Seq<Pixel>, dx: int, dy: int)
    ensures
        shift_all(a + b, dx, dy) == shift_all(a, dx, dy) + shift_all(b, dx, dy),
{
    assert(shift_all(a + b, dx, dy) =~= shift_all(a, dx, dy) + shift_all(b, dx, dy));
}

proof fn lemma_shift_byte(byte: u8, x: int, y0: int, n: nat, dx: int, dy: int)
    requires
        n <= 8,
        forall|b: u32|
            b < n && #[trigger] bit_lit(byte, b) ==> i32::MIN <= x <= i32::MAX && i32::MIN <= y0 + b
                <= i32::MAX,
    ensures
        byte_pixels(byte, x + dx, y0 + dy, n) == shift_all(byte_pixels(byte, x, y0, n), dx, dy),
    decreases n,
{
    if n > 0 {
        let m = (n - 1) as nat;
        lemma_shift_byte(byte, x, y0, m, dx, dy);
        let before = byte_pixels(byte, x, y0, m);
        if bit_lit(byte, m as u32) {
            let p = Pixel { x: x as i32, y: (y0 + n - 1) as i32 };
            assert(shifted(p, dx, dy) == Pixel { x: (x + dx) as i32, y: (y0 + dy + n - 1) as i32 });
            assert(shift_all(before.push(p), dx, dy) =~= shift_all(before, dx, dy).push(
                shifted(p, dx, dy),
            ));
        }
    }
}

proof fn lemma_shift_page(
    data: Seq<u8>,
    cols: nat,
    offset_x: int,
    offset_y: int,
    page: nat,
    c: nat,
    dx: int,
    dy: int,
)
    requires
        forall|col: nat, bit: u32|
            col < c && bit < 8 && #[trigger] lit_at(data, cols, page, col, bit) ==> i32::MIN <= col
                + offset_x <= i32::MAX && i32::MIN <= page * 8 + bit + offset_y <= i32::MAX,
    ensures
        page_pixels(data, cols, offset_x + dx, offset_y + dy, page, c) == shift_all(
            page_pixels(data, cols, offset_x, offset_y, page, c),
            dx,
            dy,
        ),
    decreases c,
{
    if c > 0 {
        let m = (c - 1) as nat;
        lemma_shift_page(data, cols, offset_x, offset_y, page, m, dx, dy);
        let byte = data[page * cols + c - 1];
        let x = c - 1 + offset_x;
        let y0 = page * 8 + offset_y;
        assert forall|b: u32| b < 8 && #[trigger] bit_lit(byte, b) implies i32::MIN <= x
            <= i32::MAX && i32::MIN <= y0 + b <= i32::MAX by {
            assert(lit_at(data, cols, page, m, b));
        }
        lemma_shift_byte(byte, x, y0, 8, dx, dy);
        lemma_shift_concat(
            page_pixels(data, cols, offset_x, offset_y, page, m),
            byte_pixels(byte, x, y0, 8),
            dx,
            dy,
        );
        assert(page_pixels(data, cols, offset_x + dx, offset_y + dy, page, c) == page_pixels(
            data,
            cols,
            offset_x + dx,
            offset_y + dy,
            page,
            m,
        ) + byte_pixels(byte, x + dx, y0 + dy, 8));
    }
}

proof fn lemma_shift_pages(
    data: Seq<u8>,
    cols: nat,
    offset_x: int,
    offset_y: int,
    p: nat,
    dx: int,
    dy: int,
)
    requires
        forall|page: nat, col: nat, bit: u32|
            page < p && col < cols && bit < 8 && #[trigger] lit_at(data, cols, page, col, bit)
                ==> i32::MIN <= col + offset_x <= i32::MAX && i32::MIN <= page * 8 + bit + offset_y
                <= i32::MAX,
    ensures
        pages_pixels(data, cols, offset_x + dx, offset_y + dy, p) == shift_all(
            pages_pixels(data, cols, offset_x, offset_y, p),
            dx,
            dy,
        ),
    decreases p,
{
    if p > 0 {
        let m = (p - 1) as nat;
        lemma_shift_pages(data, cols, offset_x, offset_y, m, dx, dy);
        lemma_shift_page(data, cols, offset_x, offset_y, m, cols, dx, dy);
        lemma_shift_concat(
            pages_pixels(data, cols, offset_x, offset_y, m),
            page_pixels(data, cols, offset_x, offset_y, m, cols),
            dx,
            dy,
        );
    }
}

/// Moving the offsets by `(dx, dy)` moves every drawn pixel by `(dx, dy)`
/// and keeps their order, when the pixels' positions fit at the first
/// offsets.
pub proof fn lemma_bitmap_shift(
    data: Seq<u8>,
    cols: nat,
    offset_x: int,
    offset_y: int,
    dx: int,
    dy: int,
)
    requires
        0 < cols,
        i32::MIN <= offset_x,
        i32::MIN <= offset_y,
        pixels_fit(data, cols, offset_x, offset_y),
    ensures
        bitmap_pixels(data, cols, offset_x + dx, offset_y + dy) == shift_all(
            bitmap_pixels(data, cols, offset_x, offset_y),
            dx,
            dy,
        ),
{
    lemma_shift_pages(data, cols, offset_x, offset_y, data.len() / cols, dx, dy);
}

} // verus!
