//! Receipt bitmap to ESC/POS raster bit image.
//!
//! A rasterised receipt goes to the printer as dots at its native pitch, so no
//! driver page length or pagination can shrink it or push the last row onto a
//! second page.

use vstd::prelude::*;
use vstd::slice::{slice_subrange, slice_to_vec};
use crate::text::{contains, contains_str, lower_all, lower_chars, str_chars};
use crate::print::raster_bits::{
    blank_row, bit_of, dot, dot_mask, lemma_append_row, lemma_bit_or, lemma_byte_ext, lemma_dots_determine_bits,
    lemma_row_end, lemma_row_index, lemma_row_index_inj, lemma_zero_byte, read_dot, row_dot, set_row_dot, stride_of, seq_dots, lemma_seq_dots_prefix, row_dot_count, count_byte_dots,
};

verus! {

/// `(layout width in mm, head width in dots)` for a roll size.
pub open spec fn spec_paper_geometry(paper_mm: u32) -> (u32, u32) {
    if paper_mm <= 58 { (48, 384) } else { (72, 576) }
}

/// The printable band of a roll: 48mm / 384 dots up to 58mm rolls, 72mm / 576 dots beyond.
pub fn paper_geometry(paper_mm: u32) -> (r: (u32, u32))
    ensures
        r == spec_paper_geometry(paper_mm),
{
    if paper_mm <= 58 {
        (48, 384)
    } else {
        (72, 576)
    }
}

} // verus!

verus! {

/// A 1bpp image: packed rows, MSB first, one bit per dot. A set bit burns.
pub struct MonoBitmap {
    pub width: u32,
    pub height: u32,
    /// Packed rows, MSB first, one bit per dot. A set bit burns.
    pub bits: Vec<u8>,
}

impl MonoBitmap {
    /// Bytes per packed row.
    pub open spec fn spec_stride(&self) -> int {
        stride_of(self.width as int)
    }

    /// The shape invariant: `height` rows of `stride` bytes, and a width whose
    /// stride can be computed in `u32`.
    pub open spec fn wf(&self) -> bool {
        &&& self.width as int + 7 <= u32::MAX
        &&& self.bits@.len() == self.spec_stride() * self.height
    }

    /// Dot `x` of row `y` (x ranges over the whole stride, padding included).
    pub open spec fn ink(&self, x: int, y: int) -> bool {
        dot(self.bits@, self.spec_stride(), x, y)
    }

    pub fn stride(&self) -> (r: usize)
        requires
            self.width as int + 7 <= u32::MAX,
        ensures
            r == self.spec_stride(),
    {
        ((self.width + 7) / 8) as usize
    }

    pub fn is_blank(&self) -> (r: bool)
        ensures
            r == (forall|i: int| 0 <= i < self.bits@.len() ==> self.bits@[i] == 0u8),
    {
        let n = self.bits.len();
        let mut i: usize = 0;
        while i < n
            invariant
                n == self.bits@.len(),
                i <= n,
                forall|j: int| 0 <= j < i ==> self.bits@[j] == 0u8,
            decreases n - i,
        {
            if self.bits[i] != 0 {
                return false;
            }
            i = i + 1;
        }
        true
    }
}

/// Whether dot `(x, y)` of a greyscale capture burns at `target_width`.
pub open spec fn luma_ink(
    src_width: int,
    luma: Seq<u8>,
    target_width: int,
    threshold: u8,
    x: int,
    y: int,
) -> bool {
    &&& x < src_width
    &&& x < target_width
    &&& y * src_width + x < luma.len()
    &&& luma[y * src_width + x] < threshold
}

/// Threshold 8-bit greyscale into 1bpp at `target_width` dots. Source columns past
/// `target_width` are dropped and missing columns stay white.
pub fn pack_luma(src_width: u32, src_height: u32, luma: &[u8], target_width: u32, threshold: u8) -> (r:
    MonoBitmap)
    requires
        target_width as int + 7 <= u32::MAX,
        (src_width as int) * (src_height as int) <= usize::MAX,
        stride_of(target_width as int) * (src_height as int) <= usize::MAX,
    ensures
        r.width == target_width,
        r.height == src_height,
        r.wf(),
        forall|x: int, y: int|
            #![trigger r.ink(x, y)]
            0 <= x < r.spec_stride() * 8 && 0 <= y < src_height ==> r.ink(x, y) == luma_ink(
                src_width as int,
                luma@,
                target_width as int,
                threshold,
                x,
                y,
            ),
{
    let stride = ((target_width + 7) / 8) as usize;
    let copy_width = if src_width < target_width {
        src_width
    } else {
        target_width
    };
    let ghost s = stride as int;
    let mut bits: Vec<u8> = Vec::new();
    let mut y: u32 = 0;
    while y < src_height
        invariant
            s == stride,
            s == stride_of(target_width as int),
            copy_width as int == if src_width < target_width { src_width as int } else { target_width as int },
            (src_width as int) * (src_height as int) <= usize::MAX,
            s * (src_height as int) <= usize::MAX,
            y <= src_height,
            bits@.len() == (y as int) * s,
            forall|x: int, yy: int|
                #![trigger dot(bits@, s, x, yy)]
                0 <= x < s * 8 && 0 <= yy < y ==> dot(bits@, s, x, yy) == luma_ink(
                    src_width as int,
                    luma@,
                    target_width as int,
                    threshold,
                    x,
                    yy,
                ),
        decreases src_height - y,
    {
        proof {
            assert((y as int) * (src_width as int) + src_width <= (src_height as int) * (src_width as int)) by (nonlinear_arith)
                requires
                    y < src_height,
                    0 <= src_width,
            ;
            assert((y as int) * (src_width as int) == (src_width as int) * (y as int)) by (nonlinear_arith);
            assert((src_height as int) * (src_width as int) == (src_width as int) * (src_height as int)) by (nonlinear_arith);
        }
        let row_start = y as usize * src_width as usize;
        let mut row = blank_row(stride);
        let mut x: u32 = 0;
        while x < copy_width
            invariant
                row@.len() == s,
                s == stride_of(target_width as int),
                copy_width <= src_width,
                copy_width <= target_width,
                copy_width as int == if src_width < target_width { src_width as int } else { target_width as int },
                row_start as int == (y as int) * (src_width as int),
                row_start as int + src_width <= usize::MAX,
                x <= copy_width,
                forall|xx: int|
                    #![trigger row_dot(row@, xx)]
                    0 <= xx < s * 8 ==> row_dot(row@, xx) == (xx < x && luma_ink(
                        src_width as int,
                        luma@,
                        target_width as int,
                        threshold,
                        xx,
                        y as int,
                    )),
            decreases copy_width - x,
        {
            let idx = row_start + x as usize;
            if idx < luma.len() && luma[idx] < threshold {
                set_row_dot(&mut row, x);
            }
            x = x + 1;
        }
        proof {
            lemma_append_row(bits@, row@, s, y as int);
        }
        bits.append(&mut row);
        y = y + 1;
    }
    proof {
        assert((src_height as int) * s == s * (src_height as int)) by (nonlinear_arith);
    }
    MonoBitmap { width: target_width, height: src_height, bits }
}

} // verus!

verus! {

/// Rows of `new_width` dots where dot `x` copies source column `x - dst + lo` for
/// `x` in `dst .. dst + (hi - lo)`; every other dot is white.
fn copy_columns(bm: &MonoBitmap, new_width: u32, lo: u32, hi: u32, dst: u32) -> (bits: Vec<u8>)
    requires
        bm.wf(),
        lo <= hi <= bm.width,
        new_width as int + 7 <= u32::MAX,
        dst as int + (hi - lo) <= new_width,
        stride_of(new_width as int) * (bm.height as int) <= usize::MAX,
    ensures
        bits@.len() == stride_of(new_width as int) * (bm.height as int),
        forall|x: int, y: int|
            #![trigger dot(bits@, stride_of(new_width as int), x, y)]
            0 <= x < stride_of(new_width as int) * 8 && 0 <= y < bm.height ==> dot(
                bits@,
                stride_of(new_width as int),
                x,
                y,
            ) == (dst <= x < dst + (hi - lo) && bm.ink(x - dst + lo, y)),
{
    let s = bm.stride();
    let ns = ((new_width + 7) / 8) as usize;
    let ghost gns = ns as int;
    let mut bits: Vec<u8> = Vec::new();
    let mut y: u32 = 0;
    while y < bm.height
        invariant
            bm.wf(),
            s == bm.spec_stride(),
            gns == ns,
            gns == stride_of(new_width as int),
            lo <= hi <= bm.width,
            dst as int + (hi - lo) <= new_width,
            gns * (bm.height as int) <= usize::MAX,
            y <= bm.height,
            bits@.len() == (y as int) * gns,
            forall|x: int, yy: int|
                #![trigger dot(bits@, gns, x, yy)]
                0 <= x < gns * 8 && 0 <= yy < y ==> dot(bits@, gns, x, yy) == (dst <= x < dst + (
                hi - lo) && bm.ink(x - dst + lo, yy)),
        decreases bm.height - y,
    {
        proof {
            lemma_row_end(y as int, bm.height as int, s as int);
        }
        let mut row = blank_row(ns);
        let mut x: u32 = lo;
        while x < hi
            invariant
                bm.wf(),
                s == bm.spec_stride(),
                row@.len() == gns,
                gns == stride_of(new_width as int),
                lo <= x <= hi <= bm.width,
                dst as int + (hi - lo) <= new_width,
                y < bm.height,
                (y as int) * (s as int) + s <= bm.bits@.len(),
                forall|xx: int|
                    #![trigger row_dot(row@, xx)]
                    0 <= xx < gns * 8 ==> row_dot(row@, xx) == (dst <= xx < dst + (x - lo)
                        && bm.ink(xx - dst + lo, y as int)),
            decreases hi - x,
        {
            if read_dot(&bm.bits, s, x, y) {
                set_row_dot(&mut row, x - lo + dst);
            }
            x = x + 1;
        }
        proof {
            lemma_append_row(bits@, row@, gns, y as int);
        }
        bits.append(&mut row);
        y = y + 1;
    }
    proof {
        assert((bm.height as int) * gns == gns * (bm.height as int)) by (nonlinear_arith);
    }
    bits
}

/// Expand (or crop) a bitmap to exactly the head width, left-aligned: each row
/// keeps its first dots up to the narrower of the two widths, and the rest of
/// the row is white.
pub fn pad_bitmap_to_head(bitmap: MonoBitmap, head_width_dots: u32) -> (r: MonoBitmap)
    requires
        bitmap.wf(),
        head_width_dots as int + 7 <= u32::MAX,
        stride_of(head_width_dots as int) * (bitmap.height as int) <= usize::MAX,
    ensures
        r.wf(),
        bitmap.width == 0 || bitmap.height == 0 || head_width_dots == 0 || bitmap.width
            == head_width_dots ==> r == bitmap,
        !(bitmap.width == 0 || bitmap.height == 0 || head_width_dots == 0 || bitmap.width
            == head_width_dots) ==> {
            &&& r.width == head_width_dots
            &&& r.height == bitmap.height
            &&& forall|x: int, y: int|
                #![trigger r.ink(x, y)]
                0 <= x < r.spec_stride() * 8 && 0 <= y < r.height ==> r.ink(x, y) == (x < head_width_dots
                    && x < bitmap.width && bitmap.ink(x, y))
        },
{
    if bitmap.width == 0 || bitmap.height == 0 || head_width_dots == 0 {
        return bitmap;
    }
    if bitmap.width == head_width_dots {
        return bitmap;
    }
    let keep = if bitmap.width < head_width_dots {
        bitmap.width
    } else {
        head_width_dots
    };
    let bits = copy_columns(&bitmap, head_width_dots, 0, keep, 0);
    proof {
        assert((bitmap.height as int) * stride_of(head_width_dots as int) == stride_of(head_width_dots as int) * (bitmap.height as int)) by (nonlinear_arith);
    }
    MonoBitmap { width: head_width_dots, height: bitmap.height, bits }
}

/// Like [`pad_bitmap_to_head`], but centres a narrower capture in the head width
/// so leftover paper is split left/right.
pub fn pad_bitmap_to_head_centered(bitmap: MonoBitmap, head_width_dots: u32) -> (r: MonoBitmap)
    requires
        bitmap.wf(),
        head_width_dots as int + 7 <= u32::MAX,
        stride_of(head_width_dots as int) * (bitmap.height as int) <= usize::MAX,
    ensures
        r.wf(),
        bitmap.width == 0 || bitmap.height == 0 || head_width_dots == 0 || bitmap.width
            == head_width_dots ==> r == bitmap,
        !(bitmap.width == 0 || bitmap.height == 0 || head_width_dots == 0 || bitmap.width
            == head_width_dots) ==> {
            &&& r.width == head_width_dots
            &&& r.height == bitmap.height
            &&& forall|x: int, y: int|
                #![trigger r.ink(x, y)]
                0 <= x < r.spec_stride() * 8 && 0 <= y < r.height ==> r.ink(x, y) == if bitmap.width
                    >= head_width_dots {
                    x < head_width_dots && bitmap.ink(x, y)
                } else {
                    centered_inset(bitmap.width as int, head_width_dots as int) <= x
                        < centered_inset(bitmap.width as int, head_width_dots as int)
                        + bitmap.width && bitmap.ink(
                        x - centered_inset(bitmap.width as int, head_width_dots as int),
                        y,
                    )
                }
        },
{
    if bitmap.width == 0 || bitmap.height == 0 || head_width_dots == 0 {
        return bitmap;
    }
    if bitmap.width >= head_width_dots {
        return pad_bitmap_to_head(bitmap, head_width_dots);
    }
    let inset = (head_width_dots - bitmap.width) / 2;
    let bits = copy_columns(&bitmap, head_width_dots, 0, bitmap.width, inset);
    proof {
        assert((bitmap.height as int) * stride_of(head_width_dots as int) == stride_of(head_width_dots as int) * (bitmap.height as int)) by (nonlinear_arith);
    }
    MonoBitmap { width: head_width_dots, height: bitmap.height, bits }
}

/// Left gutter when a `width`-dot capture is centred on a `head`-dot head.
pub open spec fn centered_inset(width: int, head: int) -> int {
    (head - width) / 2
}

} // verus!

verus! {

impl MonoBitmap {
    /// Some row burns dot `x`.
    pub open spec fn column_inked(&self, x: int) -> bool {
        exists|y: int| 0 <= y < self.height && #[trigger] self.ink(x, y)
    }

    /// First inked column at or after `x`, or `width` when there is none.
    pub open spec fn first_inked_column_from(&self, x: int) -> int
        decreases self.width - x,
    {
        if x >= self.width {
            self.width as int
        } else if self.column_inked(x) {
            x
        } else {
            self.first_inked_column_from(x + 1)
        }
    }

    /// Number of blank columns on the left (`width` for a bitmap with no ink).
    pub open spec fn leading_blank_columns(&self) -> int {
        self.first_inked_column_from(0)
    }

    /// One past the last inked column before `x`, or 0 when there is none.
    pub open spec fn ink_end_before(&self, x: int) -> int
        decreases x,
    {
        if x <= 0 {
            0
        } else if self.column_inked(x - 1) {
            x
        } else {
            self.ink_end_before(x - 1)
        }
    }

    /// One past the last inked column (0 for a bitmap with no ink).
    pub open spec fn ink_end(&self) -> int {
        self.ink_end_before(self.width as int)
    }
}

pub proof fn lemma_first_inked_column(bm: MonoBitmap, x: int)
    requires
        0 <= x <= bm.width,
    ensures
        x <= bm.first_inked_column_from(x) <= bm.width,
        forall|c: int| x <= c < bm.first_inked_column_from(x) ==> !bm.column_inked(c),
        bm.first_inked_column_from(x) < bm.width ==> bm.column_inked(bm.first_inked_column_from(x)),
    decreases bm.width - x,
{
    if x < bm.width && !bm.column_inked(x) {
        lemma_first_inked_column(bm, x + 1);
    }
}

pub proof fn lemma_first_inked_column_is(bm: MonoBitmap, x: int, col: int)
    requires
        0 <= x <= col <= bm.width,
        forall|c: int| x <= c < col ==> !bm.column_inked(c),
        col < bm.width ==> bm.column_inked(col),
    ensures
        bm.first_inked_column_from(x) == col,
    decreases col - x,
{
    if x < col {
        lemma_first_inked_column_is(bm, x + 1, col);
    }
}

pub proof fn lemma_ink_end(bm: MonoBitmap, x: int)
    requires
        0 <= x,
    ensures
        0 <= bm.ink_end_before(x) <= x,
        forall|c: int| bm.ink_end_before(x) <= c < x ==> !bm.column_inked(c),
        bm.ink_end_before(x) > 0 ==> bm.column_inked(bm.ink_end_before(x) - 1),
    decreases x,
{
    if x > 0 && !bm.column_inked(x - 1) {
        lemma_ink_end(bm, x - 1);
    }
}

pub proof fn lemma_ink_end_is(bm: MonoBitmap, x: int, end: int)
    requires
        0 <= end <= x,
        forall|c: int| end <= c < x ==> !bm.column_inked(c),
        end > 0 ==> bm.column_inked(end - 1),
    ensures
        bm.ink_end_before(x) == end,
    decreases x - end,
{
    if end < x {
        lemma_ink_end_is(bm, x - 1, end);
    }
}

/// A narrower bitmap of the same height needs no more bytes.
pub proof fn lemma_stride_mono(a: int, b: int, h: int)
    requires
        0 <= a <= b,
        0 <= h,
    ensures
        0 <= stride_of(a) <= stride_of(b),
        stride_of(a) * h <= stride_of(b) * h,
{
    assert(stride_of(a) * h <= stride_of(b) * h) by (nonlinear_arith)
        requires
            stride_of(a) <= stride_of(b),
            0 <= h,
    ;
}

/// Whether any row burns dot `x`.
fn column_has_ink(bm: &MonoBitmap, x: u32) -> (r: bool)
    requires
        bm.wf(),
        x < bm.width,
    ensures
        r == bm.column_inked(x as int),
        r == (exists|y: int| 0 <= y < bm.height && #[trigger] bm.ink(x as int, y)),
{
    let s = bm.stride();
    let mut y: u32 = 0;
    while y < bm.height
        invariant
            bm.wf(),
            s == bm.spec_stride(),
            x < bm.width,
            y <= bm.height,
            forall|yy: int| 0 <= yy < y ==> !bm.ink(x as int, yy),
        decreases bm.height - y,
    {
        proof {
            lemma_row_end(y as int, bm.height as int, s as int);
        }
        if read_dot(&bm.bits, s, x, y) {
            proof {
                assert(bm.ink(x as int, y as int));
            }
            return true;
        }
        y = y + 1;
    }
    false
}

/// Index of the first inked column, or `width` when the bitmap has no ink.
fn first_inked_column(bm: &MonoBitmap) -> (r: u32)
    requires
        bm.wf(),
    ensures
        r == bm.leading_blank_columns(),
{
    let mut x: u32 = 0;
    while x < bm.width
        invariant
            bm.wf(),
            x <= bm.width,
            forall|c: int| 0 <= c < x ==> !bm.column_inked(c),
        decreases bm.width - x,
    {
        if column_has_ink(bm, x) {
            proof {
                lemma_first_inked_column_is(*bm, 0, x as int);
            }
            return x;
        }
        x = x + 1;
    }
    proof {
        lemma_first_inked_column_is(*bm, 0, x as int);
    }
    x
}

/// One past the last inked column, or 0 when the bitmap has no ink.
fn inked_column_end(bm: &MonoBitmap) -> (r: u32)
    requires
        bm.wf(),
    ensures
        r == bm.ink_end(),
{
    let mut x: u32 = bm.width;
    while x > 0
        invariant
            bm.wf(),
            x <= bm.width,
            forall|c: int| x <= c < bm.width ==> !bm.column_inked(c),
        decreases x,
    {
        if column_has_ink(bm, x - 1) {
            proof {
                lemma_ink_end_is(*bm, bm.width as int, x as int);
            }
            return x;
        }
        x = x - 1;
    }
    proof {
        lemma_ink_end_is(*bm, bm.width as int, 0);
    }
    0
}

/// Dropping the blank columns on the left keeps every burnt dot: a column is
/// blank only when no row burns a dot in it, so each dot of the input is
/// still burnt, shifted left by the number of columns dropped, and the
/// leftmost burnt column of the input becomes the first column.
pub proof fn law_trim_leading_keeps_every_dot(bm: MonoBitmap, r: MonoBitmap)
    requires
        bm.wf(),
        r.height == bm.height,
        bm.leading_blank_columns() == 0 || bm.leading_blank_columns() >= bm.width ==> r == bm,
        0 < bm.leading_blank_columns() < bm.width ==> {
            &&& r.width == bm.width - bm.leading_blank_columns()
            &&& forall|x: int, y: int|
                #![trigger r.ink(x, y)]
                0 <= x < r.spec_stride() * 8 && 0 <= y < r.height ==> r.ink(x, y) == (x < r.width
                    && bm.ink(x + bm.leading_blank_columns(), y))
        },
    ensures
        r.width <= bm.width,
        forall|x: int, y: int|
            0 <= x < bm.width && 0 <= y < bm.height && #[trigger] bm.ink(x, y) ==> bm.width - r.width <= x
                && r.ink(x - (bm.width - r.width), y),
        (exists|x: int, y: int| 0 <= x < bm.width && 0 <= y < bm.height && #[trigger] bm.ink(x, y))
            ==> exists|y: int| 0 <= y < r.height && #[trigger] r.ink(0, y),
{
    lemma_ink_columns(bm);
    let l = bm.leading_blank_columns();
    assert forall|x: int, y: int|
        0 <= x < bm.width && 0 <= y < bm.height && #[trigger] bm.ink(x, y) implies bm.width - r.width <= x
            && r.ink(x - (bm.width - r.width), y) by {
        assert(bm.column_inked(x));
        if 0 < l < bm.width {
            assert(x >= l);
            assert(stride_of(r.width as int) * 8 >= r.width);
        }
    }
    if exists|x: int, y: int| 0 <= x < bm.width && 0 <= y < bm.height && #[trigger] bm.ink(x, y) {
        let (x, y) = choose|x: int, y: int| 0 <= x < bm.width && 0 <= y < bm.height && #[trigger] bm.ink(x, y);
        assert(bm.column_inked(x));
        assert(l < bm.width);
        assert(bm.column_inked(l));
        let yy = choose|yy: int| 0 <= yy < bm.height && #[trigger] bm.ink(l, yy);
        if 0 < l {
            assert(stride_of(r.width as int) * 8 >= r.width);
            assert(r.ink(0, yy));
        } else {
            assert(r.ink(0, yy));
        }
    }
}

/// Dropping the blank columns on the right keeps every burnt dot in place, and
/// the rightmost burnt column of the input becomes the last column.
pub proof fn law_trim_trailing_keeps_every_dot(bm: MonoBitmap, r: MonoBitmap)
    requires
        bm.wf(),
        r.height == bm.height,
        bm.ink_end() == 0 || bm.ink_end() >= bm.width ==> r == bm,
        0 < bm.ink_end() < bm.width ==> {
            &&& r.width == bm.ink_end()
            &&& forall|x: int, y: int|
                #![trigger r.ink(x, y)]
                0 <= x < r.spec_stride() * 8 && 0 <= y < r.height ==> r.ink(x, y) == (x < r.width
                    && bm.ink(x, y))
        },
    ensures
        r.width <= bm.width,
        forall|x: int, y: int|
            0 <= x < bm.width && 0 <= y < bm.height && #[trigger] bm.ink(x, y) ==> x < r.width && r.ink(x, y),
        (exists|x: int, y: int| 0 <= x < bm.width && 0 <= y < bm.height && #[trigger] bm.ink(x, y))
            ==> exists|y: int| 0 <= y < r.height && #[trigger] r.ink(r.width - 1, y),
{
    lemma_ink_columns(bm);
    let e = bm.ink_end();
    assert forall|x: int, y: int|
        0 <= x < bm.width && 0 <= y < bm.height && #[trigger] bm.ink(x, y) implies x < r.width && r.ink(x, y) by {
        assert(bm.column_inked(x));
        if 0 < e < bm.width {
            assert(x < e);
            assert(stride_of(r.width as int) * 8 >= r.width);
        }
    }
    if exists|x: int, y: int| 0 <= x < bm.width && 0 <= y < bm.height && #[trigger] bm.ink(x, y) {
        let (x, y) = choose|x: int, y: int| 0 <= x < bm.width && 0 <= y < bm.height && #[trigger] bm.ink(x, y);
        assert(bm.column_inked(x));
        assert(e > 0);
        assert(bm.column_inked(e - 1));
        let yy = choose|yy: int| 0 <= yy < bm.height && #[trigger] bm.ink(e - 1, yy);
        if e < bm.width {
            assert(stride_of(r.width as int) * 8 >= r.width);
            assert(r.ink(r.width - 1, yy));
        } else {
            assert(r.ink(r.width - 1, yy));
        }
    }
}

/// Drop blank columns on the left so a mis-sized capture does not drift right on paper.
pub fn trim_leading_blank_columns(bitmap: MonoBitmap) -> (r: MonoBitmap)
    requires
        bitmap.wf(),
    ensures
        r.wf(),
        r.height == bitmap.height,
        bitmap.leading_blank_columns() == 0 || bitmap.leading_blank_columns() >= bitmap.width
            ==> r == bitmap,
        0 < bitmap.leading_blank_columns() < bitmap.width ==> {
            &&& r.width == bitmap.width - bitmap.leading_blank_columns()
            &&& forall|x: int, y: int|
                #![trigger r.ink(x, y)]
                0 <= x < r.spec_stride() * 8 && 0 <= y < r.height ==> r.ink(x, y) == (x < r.width
                    && bitmap.ink(x + bitmap.leading_blank_columns(), y))
        },
        r.width <= bitmap.width,
        forall|x: int, y: int|
            0 <= x < bitmap.width && 0 <= y < bitmap.height && #[trigger] bitmap.ink(x, y) ==> bitmap.width
                - r.width <= x && r.ink(x - (bitmap.width - r.width), y),
        (exists|x: int, y: int| 0 <= x < bitmap.width && 0 <= y < bitmap.height && #[trigger] bitmap.ink(x, y))
            ==> exists|y: int| 0 <= y < r.height && #[trigger] r.ink(0, y),
{
    let stride = bitmap.stride();
    if stride == 0 || bitmap.width == 0 {
        proof {
            law_trim_leading_keeps_every_dot(bitmap, bitmap);
        }
        return bitmap;
    }
    let col = first_inked_column(&bitmap);
    if col >= bitmap.width || col == 0 {
        proof {
            law_trim_leading_keeps_every_dot(bitmap, bitmap);
        }
        return bitmap;
    }
    proof {
        assert(bitmap.bits@.len() == bitmap.bits.len());
    }
    let new_width = bitmap.width - col;
    proof {
        lemma_stride_mono(new_width as int, bitmap.width as int, bitmap.height as int);
    }
    let bits = copy_columns(&bitmap, new_width, col, bitmap.width, 0);
    proof {
        assert((bitmap.height as int) * stride_of(new_width as int) == stride_of(new_width as int) * (bitmap.height as int)) by (nonlinear_arith);
    }
    let r = MonoBitmap { width: new_width, height: bitmap.height, bits };
    proof {
        law_trim_leading_keeps_every_dot(bitmap, r);
    }
    r
}

/// Drop blank columns on the right (mirror of [`trim_leading_blank_columns`]).
pub fn trim_trailing_blank_columns(bitmap: MonoBitmap) -> (r: MonoBitmap)
    requires
        bitmap.wf(),
    ensures
        r.wf(),
        r.height == bitmap.height,
        bitmap.ink_end() == 0 || bitmap.ink_end() >= bitmap.width ==> r == bitmap,
        0 < bitmap.ink_end() < bitmap.width ==> {
            &&& r.width == bitmap.ink_end()
            &&& forall|x: int, y: int|
                #![trigger r.ink(x, y)]
                0 <= x < r.spec_stride() * 8 && 0 <= y < r.height ==> r.ink(x, y) == (x < r.width
                    && bitmap.ink(x, y))
        },
        r.width <= bitmap.width,
        forall|x: int, y: int|
            0 <= x < bitmap.width && 0 <= y < bitmap.height && #[trigger] bitmap.ink(x, y) ==> x < r.width
                && r.ink(x, y),
        (exists|x: int, y: int| 0 <= x < bitmap.width && 0 <= y < bitmap.height && #[trigger] bitmap.ink(x, y))
            ==> exists|y: int| 0 <= y < r.height && #[trigger] r.ink(r.width - 1, y),
{
    let stride = bitmap.stride();
    if stride == 0 || bitmap.width == 0 {
        proof {
            lemma_ink_end(bitmap, bitmap.width as int);
            law_trim_trailing_keeps_every_dot(bitmap, bitmap);
        }
        return bitmap;
    }
    let end = inked_column_end(&bitmap);
    if end == 0 || end >= bitmap.width {
        proof {
            law_trim_trailing_keeps_every_dot(bitmap, bitmap);
        }
        return bitmap;
    }
    proof {
        lemma_stride_mono(end as int, bitmap.width as int, bitmap.height as int);
    }
    proof {
        assert(bitmap.bits@.len() == bitmap.bits.len());
    }
    let bits = copy_columns(&bitmap, end, 0, end, 0);
    proof {
        assert((bitmap.height as int) * stride_of(end as int) == stride_of(end as int) * (bitmap.height as int)) by (nonlinear_arith);
    }
    let r = MonoBitmap { width: end, height: bitmap.height, bits };
    proof {
        law_trim_trailing_keeps_every_dot(bitmap, r);
    }
    r
}

/// Keep columns `left .. right` (clamped to the width).
pub fn crop_columns(bitmap: MonoBitmap, left: u32, right: u32) -> (r: MonoBitmap)
    requires
        bitmap.wf(),
    ensures
        r.wf(),
        r.height == bitmap.height,
        left >= right || left >= bitmap.width || (left == 0 && right >= bitmap.width) ==> r
            == bitmap,
        !(left >= right || left >= bitmap.width || (left == 0 && right >= bitmap.width)) ==> {
            &&& r.width == (if right < bitmap.width { right } else { bitmap.width }) - left
            &&& forall|x: int, y: int|
                #![trigger r.ink(x, y)]
                0 <= x < r.spec_stride() * 8 && 0 <= y < r.height ==> r.ink(x, y) == (x < r.width
                    && bitmap.ink(x + left, y))
        },
{
    if left >= right || left >= bitmap.width {
        return bitmap;
    }
    let right = if right < bitmap.width {
        right
    } else {
        bitmap.width
    };
    proof {
        assert(bitmap.bits@.len() == bitmap.bits.len());
    }
    let new_width = right - left;
    if new_width == 0 {
        return bitmap;
    }
    if left == 0 && new_width == bitmap.width {
        return bitmap;
    }
    proof {
        lemma_stride_mono(new_width as int, bitmap.width as int, bitmap.height as int);
    }
    let bits = copy_columns(&bitmap, new_width, left, right, 0);
    proof {
        assert((bitmap.height as int) * stride_of(new_width as int) == stride_of(new_width as int) * (bitmap.height as int)) by (nonlinear_arith);
    }
    MonoBitmap { width: new_width, height: bitmap.height, bits }
}

/// Move content left by `dots`, filling the right with white; the width stays.
pub fn shift_content_left(bitmap: MonoBitmap, dots: u32) -> (r: MonoBitmap)
    requires
        bitmap.wf(),
    ensures
        r.wf(),
        r.height == bitmap.height,
        dots == 0 || bitmap.width <= dots ==> r == bitmap,
        !(dots == 0 || bitmap.width <= dots) ==> {
            &&& r.width == bitmap.width
            &&& forall|x: int, y: int|
                #![trigger r.ink(x, y)]
                0 <= x < r.spec_stride() * 8 && 0 <= y < r.height ==> r.ink(x, y) == (x
                    < bitmap.width - dots && bitmap.ink(x + dots, y))
        },
{
    if dots == 0 || bitmap.width <= dots || bitmap.height == 0 {
        return bitmap;
    }
    proof {
        assert(bitmap.bits@.len() == bitmap.bits.len());
    }
    let orig_width = bitmap.width;
    let new_width = bitmap.width - dots;
    proof {
        lemma_stride_mono(new_width as int, bitmap.width as int, bitmap.height as int);
    }
    let bits = copy_columns(&bitmap, new_width, dots, bitmap.width, 0);
    proof {
        assert((bitmap.height as int) * stride_of(new_width as int) == stride_of(new_width as int) * (bitmap.height as int)) by (nonlinear_arith);
        assert((bitmap.height as int) * stride_of(orig_width as int) == stride_of(orig_width as int) * (bitmap.height as int)) by (nonlinear_arith);
    }
    let shifted = MonoBitmap { width: new_width, height: bitmap.height, bits };
    pad_bitmap_to_head(shifted, orig_width)
}

} // verus!

verus! {

/// Ignore capture speckle: a row counts as inked from this many dots up.
pub const TRIM_TRAILING_MIN_DOTS: u32 = 4;

impl MonoBitmap {
    /// The packed bytes of row `y`.
    pub open spec fn row_bytes(&self, y: int) -> Seq<u8> {
        self.bits@.subrange(y * self.spec_stride(), y * self.spec_stride() + self.spec_stride())
    }

    /// Row `y` burns enough dots to count as printed content.
    pub open spec fn row_inked(&self, y: int) -> bool {
        seq_dots(self.row_bytes(y)) >= TRIM_TRAILING_MIN_DOTS
    }

    /// First inked row at or after `y`, or `height` when there is none.
    pub open spec fn first_inked_row_from(&self, y: int) -> int
        decreases self.height - y,
    {
        if y >= self.height {
            self.height as int
        } else if self.row_inked(y) {
            y
        } else {
            self.first_inked_row_from(y + 1)
        }
    }

    /// Number of rows above the first inked row (`height` when none is inked).
    pub open spec fn leading_blank_rows(&self) -> int {
        self.first_inked_row_from(0)
    }

    /// One past the last inked row before `y`, or 0 when there is none.
    pub open spec fn inked_row_end_before(&self, y: int) -> int
        decreases y,
    {
        if y <= 0 {
            0
        } else if self.row_inked(y - 1) {
            y
        } else {
            self.inked_row_end_before(y - 1)
        }
    }

    /// One past the last inked row (0 when no row is inked).
    pub open spec fn inked_row_end(&self) -> int {
        self.inked_row_end_before(self.height as int)
    }
}

pub proof fn lemma_first_inked_row_is(bm: MonoBitmap, y: int, r: int)
    requires
        0 <= y <= r <= bm.height,
        forall|c: int| y <= c < r ==> !bm.row_inked(c),
        r < bm.height ==> bm.row_inked(r),
    ensures
        bm.first_inked_row_from(y) == r,
    decreases r - y,
{
    if y < r {
        lemma_first_inked_row_is(bm, y + 1, r);
    }
}

pub proof fn lemma_inked_row_end_is(bm: MonoBitmap, y: int, end: int)
    requires
        0 <= end <= y,
        forall|c: int| end <= c < y ==> !bm.row_inked(c),
        end > 0 ==> bm.row_inked(end - 1),
    ensures
        bm.inked_row_end_before(y) == end,
    decreases y - end,
{
    if end < y {
        lemma_inked_row_end_is(bm, y - 1, end);
    }
}

/// Whether row `y` burns at least [`TRIM_TRAILING_MIN_DOTS`] dots.
fn row_has_content(bm: &MonoBitmap, y: u32) -> (r: bool)
    requires
        bm.wf(),
        y < bm.height,
    ensures
        r == bm.row_inked(y as int),
{
    let s = bm.stride();
    proof {
        lemma_row_end(y as int, bm.height as int, s as int);
    }
    proof {
        assert(bm.bits@.len() == bm.bits.len());
    }
    let start = y as usize * s;
    let row = slice_subrange(bm.bits.as_slice(), start, start + s);
    proof {
        lemma_seq_dots_prefix(row@, 0);
    }
    row_dot_count(row) >= TRIM_TRAILING_MIN_DOTS
}

/// Drop blank rows at the top so captured whitespace does not feed out as paper.
pub fn trim_leading_blank_rows(bitmap: MonoBitmap) -> (r: MonoBitmap)
    requires
        bitmap.wf(),
    ensures
        r.wf(),
        r.width == bitmap.width,
        bitmap.spec_stride() == 0 || bitmap.leading_blank_rows() == 0
            || bitmap.leading_blank_rows() >= bitmap.height ==> r == bitmap,
        !(bitmap.spec_stride() == 0 || bitmap.leading_blank_rows() == 0
            || bitmap.leading_blank_rows() >= bitmap.height) ==> {
            &&& r.height == bitmap.height - bitmap.leading_blank_rows()
            &&& r.bits@ == bitmap.bits@.subrange(
                bitmap.leading_blank_rows() * bitmap.spec_stride(),
                bitmap.bits@.len() as int,
            )
        },
{
    let stride = bitmap.stride();
    if stride == 0 {
        return bitmap;
    }
    let mut first: u32 = 0;
    while first < bitmap.height
        invariant_except_break
            first <= bitmap.height,
            forall|c: int| 0 <= c < first ==> !bitmap.row_inked(c),
        invariant
            bitmap.wf(),
        ensures
            first <= bitmap.height,
            forall|c: int| 0 <= c < first ==> !bitmap.row_inked(c),
            first < bitmap.height ==> bitmap.row_inked(first as int),
        decreases bitmap.height - first,
    {
        if row_has_content(&bitmap, first) {
            break;
        }
        first = first + 1;
    }
    proof {
        lemma_first_inked_row_is(bitmap, 0, first as int);
    }
    if first >= bitmap.height || first == 0 {
        return bitmap;
    }
    let new_height = bitmap.height - first;
    proof {
        lemma_row_end(first as int, bitmap.height as int, stride as int);
    }
    let start = first as usize * stride;
    let n = bitmap.bits.len();
    let tail = slice_subrange(bitmap.bits.as_slice(), start, n);
    let bits = slice_to_vec(tail);
    proof {
        assert(bits@.len() == stride_of(bitmap.width as int) * (new_height as int)) by (nonlinear_arith)
            requires
                bits@.len() == n - start,
                n == stride_of(bitmap.width as int) * (bitmap.height as int),
                start == (first as int) * stride_of(bitmap.width as int),
                new_height == bitmap.height - first,
        ;
    }
    MonoBitmap { width: bitmap.width, height: new_height, bits }
}

/// Drop blank rows at the bottom, keeping `keep_rows` of them (as far as the
/// bitmap has them) before the cut.
pub fn trim_trailing_blank_rows(bitmap: MonoBitmap, keep_rows: u32) -> (r: MonoBitmap)
    requires
        bitmap.wf(),
        bitmap.spec_stride() > 0 && bitmap.inked_row_end() > 0 ==> bitmap.inked_row_end()
            + keep_rows <= u32::MAX,
    ensures
        r.wf(),
        r.width == bitmap.width,
        bitmap.spec_stride() == 0 || bitmap.inked_row_end() == 0 ==> r == bitmap,
        !(bitmap.spec_stride() == 0 || bitmap.inked_row_end() == 0) ==> {
            &&& r.height == if bitmap.inked_row_end() + keep_rows < bitmap.height {
                bitmap.inked_row_end() + keep_rows
            } else {
                bitmap.height as int
            }
            &&& r.bits@ == bitmap.bits@.subrange(0, bitmap.spec_stride() * r.height)
        },
{
    let stride = bitmap.stride();
    if stride == 0 {
        return bitmap;
    }
    let mut end: u32 = bitmap.height;
    while end > 0
        invariant_except_break
            end <= bitmap.height,
            forall|c: int| end <= c < bitmap.height ==> !bitmap.row_inked(c),
        invariant
            bitmap.wf(),
        ensures
            end <= bitmap.height,
            forall|c: int| end <= c < bitmap.height ==> !bitmap.row_inked(c),
            end > 0 ==> bitmap.row_inked(end - 1),
        decreases end,
    {
        if row_has_content(&bitmap, end - 1) {
            break;
        }
        end = end - 1;
    }
    proof {
        lemma_inked_row_end_is(bitmap, bitmap.height as int, end as int);
    }
    if end == 0 {
        return bitmap;
    }
    let sum = end + keep_rows;
    let height = if sum < bitmap.height {
        sum
    } else {
        bitmap.height
    };
    proof {
        assert(bitmap.bits@.len() == bitmap.bits.len());
    }
    let mut bits = bitmap.bits;
    proof {
        assert(stride * (height as int) <= stride * (bitmap.height as int)) by (nonlinear_arith)
            requires
                height <= bitmap.height,
                0 <= stride,
        ;
    }
    bits.truncate(stride * height as usize);
    proof {
        assert(stride * (height as int) == stride_of(bitmap.width as int) * (height as int));
    }
    MonoBitmap { width: bitmap.width, height, bits }
}

/// Append `rows` pure-white rows after the last ink so the cut sits clear of branding.
pub fn append_blank_rows(bitmap: MonoBitmap, rows: u32) -> (r: MonoBitmap)
    requires
        bitmap.wf(),
        rows > 0 && bitmap.width > 0 ==> bitmap.height + rows <= u32::MAX,
        rows > 0 && bitmap.width > 0 ==> bitmap.bits@.len() + bitmap.spec_stride() * rows
            <= usize::MAX,
    ensures
        r.wf(),
        rows == 0 || bitmap.width == 0 ==> r == bitmap,
        !(rows == 0 || bitmap.width == 0) ==> {
            &&& r.width == bitmap.width
            &&& r.height == bitmap.height + rows
            &&& r.bits@ == bitmap.bits@ + Seq::new(
                (bitmap.spec_stride() * rows) as nat,
                |i: int| 0u8,
            )
        },
{
    if rows == 0 || bitmap.width == 0 {
        return bitmap;
    }
    let stride = bitmap.stride();
    proof {
        assert(0 <= stride * (rows as int)) by (nonlinear_arith)
            requires
                0 <= stride,
                0 <= rows,
        ;
    }
    let extra = stride * rows as usize;
    let mut bits = bitmap.bits;
    let ghost old_bits = bits@;
    let mut i: usize = 0;
    while i < extra
        invariant
            i <= extra,
            bits@.len() == old_bits.len() + i,
            old_bits.len() + extra <= usize::MAX,
            bits@ == old_bits + Seq::new(i as nat, |k: int| 0u8),
        decreases extra - i,
    {
        bits.push(0u8);
        i = i + 1;
        proof {
            assert(bits@ =~= old_bits + Seq::new(i as nat, |k: int| 0u8));
        }
    }
    proof {
        assert(bits@.len() == stride_of(bitmap.width as int) * (bitmap.height + rows)) by (nonlinear_arith)
            requires
                bits@.len() == old_bits.len() + extra,
                old_bits.len() == stride_of(bitmap.width as int) * (bitmap.height as int),
                extra == stride_of(bitmap.width as int) * (rows as int),
        ;
    }
    MonoBitmap { width: bitmap.width, height: bitmap.height + rows, bits }
}

} // verus!

verus! {

/// Rows per `GS v 0` band. Small printers have a few KB of buffer, so long
/// receipts are streamed in bands instead of one huge bit image.
pub const BAND_ROWS: u32 = 128;

/// Default feed units before partial cut (`GS V 66 n`).
pub const CUT_FEED_UNITS_DEFAULT: u8 = 48;

/// Extra feed for heads that cut close to the print line.
pub const CUT_FEED_UNITS_WIDE_HEAD: u8 = 80;

/// White rows after branding for every printer.
pub const TRAILING_BLANK_ROWS_DEFAULT: u32 = 48;

/// Extra white rows for left-align / short head-to-cutter printers.
pub const TRAILING_BLANK_ROWS_WIDE_HEAD: u32 = 64;

/// ~1.5 m of paper. Anything longer is a runaway receipt, not a real sale.
pub const MAX_RASTER_ROWS: u32 = 12_000;

/// Luma below this burns a dot.
pub const BLACK_THRESHOLD: u8 = 208;

/// Reset, standard mode, no feed, left margin 0 (twice), print area = head
/// width (capped at 0xffff), left align, absolute position 0.
pub open spec fn escpos_init_bytes(head_width_dots: u32) -> Seq<u8> {
    let area: int = if head_width_dots < 0xffff { head_width_dots as int } else { 0xffff };
    seq![
        0x1bu8, 0x40u8,
        0x1bu8, 0x4du8, 0x00u8,
        0x1bu8, 0x4au8, 0x00u8,
        0x1du8, 0x4cu8, 0x00u8, 0x00u8,
        0x1du8, 0x4cu8, 0x00u8, 0x00u8,
        0x1du8, 0x57u8, (area % 256) as u8, (area / 256) as u8,
        0x1bu8, 0x61u8, 0x00u8,
        0x1bu8, 0x24u8, 0x00u8, 0x00u8,
    ]
}

/// `GS v 0` header of a band of `rows` rows of `stride` bytes.
pub open spec fn band_header(stride: int, rows: int) -> Seq<u8> {
    seq![
        0x1du8, 0x76u8, 0x30u8, 0x00u8,
        (stride % 256) as u8, ((stride / 256) % 256) as u8,
        (rows % 256) as u8, ((rows / 256) % 256) as u8,
    ]
}

/// Rows in the band that starts at `row` of an image of `h` rows.
pub open spec fn band_rows(h: int, row: int) -> int {
    if h - row < BAND_ROWS { h - row } else { BAND_ROWS as int }
}

/// The bit image from `row` on, streamed in bands of at most [`BAND_ROWS`] rows.
pub open spec fn raster_bands(bits: Seq<u8>, stride: int, h: int, row: int) -> Seq<u8>
    decreases h - row,
{
    if row < 0 || row >= h {
        Seq::empty()
    } else {
        let rows = band_rows(h, row);
        band_header(stride, rows) + bits.subrange(row * stride, (row + rows) * stride)
            + raster_bands(bits, stride, h, row + rows)
    }
}

/// The whole ESC/POS job for a bitmap.
pub open spec fn escpos_job(bm: MonoBitmap, head_width_dots: u32, cut_feed_units: u8) -> Seq<u8> {
    escpos_init_bytes(head_width_dots) + seq![0x1du8, 0x4cu8, 0x00u8, 0x00u8, 0x1bu8, 0x24u8, 0x00u8, 0x00u8]
        + raster_bands(bm.bits@, bm.spec_stride(), bm.height as int, 0) + seq![
        0x1du8,
        0x56u8,
        0x42u8,
        cut_feed_units,
    ]
}

/// Zero left margin and claim the full head width before raster data.
fn write_escpos_init(out: &mut Vec<u8>, head_width_dots: u32)
    ensures
        final(out)@ == old(out)@ + escpos_init_bytes(head_width_dots),
{
    let ghost start = out@;
    out.push(0x1b);
    out.push(0x40);
    out.push(0x1b);
    out.push(0x4d);
    out.push(0x00);
    out.push(0x1b);
    out.push(0x4a);
    out.push(0x00);
    out.push(0x1d);
    out.push(0x4c);
    out.push(0x00);
    out.push(0x00);
    out.push(0x1d);
    out.push(0x4c);
    out.push(0x00);
    out.push(0x00);
    let area: u32 = if head_width_dots < 0xffff {
        head_width_dots
    } else {
        0xffff
    };
    out.push(0x1d);
    out.push(0x57);
    out.push((area % 256) as u8);
    out.push((area / 256) as u8);
    out.push(0x1b);
    out.push(0x61);
    out.push(0x00);
    out.push(0x1b);
    out.push(0x24);
    out.push(0x00);
    out.push(0x00);
    proof {
        assert(out@ =~= start + escpos_init_bytes(head_width_dots));
    }
}

/// Wrap a bitmap in an ESC/POS job: reset, print the bit image in bands, then feed
/// clear of the head and cut once.
pub fn escpos_payload(bitmap: &MonoBitmap, head_width_dots: u32) -> (r: Vec<u8>)
    requires
        bitmap.wf(),
    ensures
        r@ == escpos_job(*bitmap, head_width_dots, CUT_FEED_UNITS_DEFAULT),
{
    escpos_payload_with_cut_feed(bitmap, head_width_dots, CUT_FEED_UNITS_DEFAULT)
}

/// Like [`escpos_payload`], with an explicit feed before the partial cut.
pub fn escpos_payload_with_cut_feed(bitmap: &MonoBitmap, head_width_dots: u32, cut_feed_units: u8) -> (r:
    Vec<u8>)
    requires
        bitmap.wf(),
    ensures
        r@ == escpos_job(*bitmap, head_width_dots, cut_feed_units),
{
    let stride = bitmap.stride();
    let n = bitmap.bits.len();
    let mut out: Vec<u8> = Vec::new();
    write_escpos_init(&mut out, head_width_dots);
    out.push(0x1d);
    out.push(0x4c);
    out.push(0x00);
    out.push(0x00);
    out.push(0x1b);
    out.push(0x24);
    out.push(0x00);
    out.push(0x00);
    let ghost prefix = out@;
    let ghost s = stride as int;
    let ghost h = bitmap.height as int;
    proof {
        assert(prefix =~= escpos_init_bytes(head_width_dots) + seq![0x1du8, 0x4cu8, 0x00u8, 0x00u8, 0x1bu8, 0x24u8, 0x00u8, 0x00u8]);
    }
    let mut row: u32 = 0;
    while row < bitmap.height
        invariant
            bitmap.wf(),
            s == stride,
            s == bitmap.spec_stride(),
            h == bitmap.height,
            n == bitmap.bits@.len(),
            n == s * h,
            row <= bitmap.height,
            out@ + raster_bands(bitmap.bits@, s, h, row as int) == prefix + raster_bands(
                bitmap.bits@,
                s,
                h,
                0,
            ),
        decreases bitmap.height - row,
    {
        let rows = if bitmap.height - row < BAND_ROWS {
            bitmap.height - row
        } else {
            BAND_ROWS
        };
        let x_bytes = stride as u32;
        let ghost before = out@;
        out.push(0x1d);
        out.push(0x76);
        out.push(0x30);
        out.push(0x00);
        out.push((x_bytes % 256) as u8);
        out.push(((x_bytes / 256) % 256) as u8);
        out.push((rows % 256) as u8);
        out.push(((rows / 256) % 256) as u8);
        proof {
            assert(out@ =~= before + band_header(s, rows as int));
            assert((row as int) * s + (rows as int) * s == (row + rows) * s) by (nonlinear_arith);
            assert((row + rows) * s <= h * s) by (nonlinear_arith)
                requires
                    row + rows <= h,
                    0 <= s,
            ;
            assert(0 <= (row as int) * s) by (nonlinear_arith)
                requires
                    0 <= row,
                    0 <= s,
            ;
            assert(h * s == s * h) by (nonlinear_arith);
            assert(0 <= (rows as int) * s) by (nonlinear_arith)
                requires
                    0 <= rows,
                    0 <= s,
            ;
        }
        let start = row as usize * stride;
        let len = rows as usize * stride;
        let band = slice_subrange(bitmap.bits.as_slice(), start, start + len);
        let mut chunk = slice_to_vec(band);
        out.append(&mut chunk);
        proof {
            let ghost rest = raster_bands(bitmap.bits@, s, h, (row + rows) as int);
            assert(raster_bands(bitmap.bits@, s, h, row as int) == band_header(s, rows as int)
                + bitmap.bits@.subrange(row * s, (row + rows) * s) + rest);
            assert(out@ + rest =~= before + raster_bands(bitmap.bits@, s, h, row as int));
        }
        row = row + rows;
    }
    let ghost body = out@;
    out.push(0x1d);
    out.push(0x56);
    out.push(0x42);
    out.push(cut_feed_units);
    proof {
        assert(raster_bands(bitmap.bits@, s, h, row as int) =~= Seq::<u8>::empty());
        assert(body =~= prefix + raster_bands(bitmap.bits@, s, h, 0));
        assert(out@ =~= escpos_job(*bitmap, head_width_dots, cut_feed_units));
    }
    out
}

} // verus!

verus! {

impl MonoBitmap {
    /// Row `y` is a table rule or divider: at least 55% of the width burns.
    pub open spec fn rule_row(&self, y: int) -> bool {
        self.width > 0 && seq_dots(self.row_bytes(y)) * 100 >= self.width * 55
    }

    /// Dot `(x, y)` counts towards the horizontal ink bounds: a burnt dot inside
    /// the width on a row that is not a rule.
    pub open spec fn bounds_dot(&self, x: int, y: int) -> bool {
        &&& 0 <= y < self.height
        &&& 0 <= x < self.width
        &&& !self.rule_row(y)
        &&& self.ink(x, y)
    }

    /// Rule detection on every row stays within `u32` arithmetic.
    pub open spec fn rule_counts_fit(&self) -> bool {
        &&& self.width * 55 <= u32::MAX
        &&& forall|y: int| 0 <= y < self.height ==> seq_dots(#[trigger] self.row_bytes(y)) * 100 <= u32::MAX
    }
}

/// Rows that are mostly ink across the width (table rules, dividers).
pub fn is_full_width_rule_row(row: &[u8], width: u32) -> (r: bool)
    requires
        width > 0 ==> seq_dots(row@) * 100 <= u32::MAX && width * 55 <= u32::MAX,
    ensures
        r == (width > 0 && seq_dots(row@) * 100 >= width * 55),
{
    if width == 0 {
        return false;
    }
    row_dot_count(row) * 100 >= width * 55
}

/// Left/right ink bounds `(first, last + 1)` over text rows only, ignoring
/// full-width horizontal rules; `None` when no such row has ink.
pub fn content_ink_column_bounds(bitmap: &MonoBitmap) -> (r: Option<(u32, u32)>)
    requires
        bitmap.wf(),
        bitmap.rule_counts_fit(),
    ensures
        r is None <==> !(exists|x: int, y: int| bitmap.bounds_dot(x, y)),
        r matches Some((lo, hi)) ==> {
            &&& lo < hi <= bitmap.width
            &&& exists|y: int| #[trigger] bitmap.bounds_dot(lo as int, y)
            &&& exists|y: int| #[trigger] bitmap.bounds_dot(hi - 1, y)
            &&& forall|x: int, y: int| #[trigger] bitmap.bounds_dot(x, y) ==> lo <= x < hi
        },
{
    let stride = bitmap.stride();
    if stride == 0 || bitmap.width == 0 || bitmap.height == 0 {
        return None;
    }
    let len = bitmap.bits.len();
    let mut min_x: Option<u32> = None;
    let mut max_x: Option<u32> = None;
    let ghost mut min_y: int = 0;
    let ghost mut max_y: int = 0;
    let mut y: u32 = 0;
    while y < bitmap.height
        invariant
            bitmap.wf(),
            bitmap.rule_counts_fit(),
            stride == bitmap.spec_stride(),
            len == bitmap.bits@.len(),
            bitmap.width > 0,
            y <= bitmap.height,
            min_x is None <==> max_x is None,
            min_x is None ==> forall|xx: int, yy: int| 0 <= yy < y ==> !#[trigger] bitmap.bounds_dot(xx, yy),
            min_x matches Some(m) ==> max_x matches Some(mx) && m <= mx < bitmap.width
                && 0 <= min_y < y && bitmap.bounds_dot(m as int, min_y)
                && 0 <= max_y < y && bitmap.bounds_dot(mx as int, max_y)
                && forall|xx: int, yy: int| 0 <= yy < y && #[trigger] bitmap.bounds_dot(xx, yy) ==> m <= xx <= mx,
        decreases bitmap.height - y,
    {
        proof {
            lemma_row_end(y as int, bitmap.height as int, stride as int);
        }
        let start = y as usize * stride;
        let row = slice_subrange(bitmap.bits.as_slice(), start, start + stride);
        proof {
            assert(seq_dots(bitmap.row_bytes(y as int)) * 100 <= u32::MAX);
        }
        let rule = is_full_width_rule_row(row, bitmap.width);
        if !rule {
            let mut x: u32 = 0;
            while x < bitmap.width
                invariant
                    bitmap.wf(),
                    stride == bitmap.spec_stride(),
                    bitmap.width > 0,
                    y < bitmap.height,
                    !bitmap.rule_row(y as int),
                    (y as int) * (stride as int) + stride <= bitmap.bits@.len(),
                    x <= bitmap.width,
                    min_x is None <==> max_x is None,
                    min_x is None ==> forall|xx: int, yy: int| (0 <= yy < y || (yy == y && xx < x)) ==> !#[trigger] bitmap.bounds_dot(xx, yy),
                    min_x matches Some(m) ==> max_x matches Some(mx) && m <= mx < bitmap.width
                        && 0 <= min_y <= y && bitmap.bounds_dot(m as int, min_y)
                        && 0 <= max_y <= y && bitmap.bounds_dot(mx as int, max_y)
                        && forall|xx: int, yy: int| (0 <= yy < y || (yy == y && xx < x)) && #[trigger] bitmap.bounds_dot(xx, yy) ==> m <= xx <= mx,
                decreases bitmap.width - x,
            {
                if read_dot(&bitmap.bits, stride, x, y) {
                    proof {
                        assert(bitmap.bounds_dot(x as int, y as int));
                    }
                    match min_x {
                        None => {
                            min_x = Some(x);
                            max_x = Some(x);
                            proof {
                                min_y = y as int;
                                max_y = y as int;
                            }
                        },
                        Some(m) => {
                            if x < m {
                                min_x = Some(x);
                                proof {
                                    min_y = y as int;
                                }
                            }
                            match max_x {
                                Some(mx) => {
                                    if x > mx {
                                        max_x = Some(x);
                                        proof {
                                            max_y = y as int;
                                        }
                                    }
                                },
                                None => {},
                            }
                        },
                    }
                }
                x = x + 1;
            }
        }
        y = y + 1;
    }
    match (min_x, max_x) {
        (Some(lo), Some(hi)) => {
            if hi >= lo {
                proof {
                    assert(bitmap.bounds_dot(lo as int, min_y));
                    assert(bitmap.bounds_dot((hi + 1) - 1, max_y));
                }
                Some((lo, hi + 1))
            } else {
                None
            }
        },
        _ => None,
    }
}

} // verus!

verus! {

/// Width of the capture once blank side columns are dropped.
pub open spec fn trimmed_width(bm: MonoBitmap) -> int {
    if bm.ink_end() == 0 {
        bm.width as int
    } else {
        bm.ink_end() - bm.leading_blank_columns()
    }
}

/// Dots of the capture once blank side columns are dropped.
pub open spec fn trimmed_ink(bm: MonoBitmap, x: int, y: int) -> bool {
    if bm.ink_end() == 0 || (bm.leading_blank_columns() == 0 && bm.ink_end() == bm.width) {
        bm.ink(x, y)
    } else {
        x < trimmed_width(bm) && bm.ink(x + bm.leading_blank_columns(), y)
    }
}

/// First and last inked columns bracket all the ink.
pub proof fn lemma_ink_columns(bm: MonoBitmap)
    ensures
        0 <= bm.leading_blank_columns() <= bm.width,
        0 <= bm.ink_end() <= bm.width,
        bm.ink_end() == 0 <==> bm.leading_blank_columns() == bm.width,
        bm.ink_end() > 0 ==> bm.leading_blank_columns() < bm.ink_end(),
        bm.ink_end() > 0 ==> bm.column_inked(bm.leading_blank_columns()),
        bm.ink_end() > 0 ==> bm.column_inked(bm.ink_end() - 1),
        forall|c: int| 0 <= c < bm.leading_blank_columns() ==> !bm.column_inked(c),
        forall|c: int| bm.ink_end() <= c < bm.width ==> !bm.column_inked(c),
{
    lemma_first_inked_column(bm, 0);
    lemma_ink_end(bm, bm.width as int);
    let l = bm.leading_blank_columns();
    let e = bm.ink_end();
    if e > 0 {
        if l >= e {
            assert(!bm.column_inked(e - 1));
        }
    }
    if l < bm.width {
        if e == 0 {
            assert(!bm.column_inked(l));
        }
    }
}

/// Columns of a bitmap whose dots are those of `bm` shifted left by `off`.
pub proof fn lemma_shifted_columns(t: MonoBitmap, bm: MonoBitmap, off: int)
    requires
        t.height == bm.height,
        0 <= off,
        t.width + off <= bm.width,
        forall|x: int, y: int|
            #![trigger t.ink(x, y)]
            0 <= x < t.spec_stride() * 8 && 0 <= y < t.height ==> t.ink(x, y) == (x < t.width
                && bm.ink(x + off, y)),
    ensures
        forall|c: int| 0 <= c < t.width ==> t.column_inked(c) == bm.column_inked(c + off),
{
    assert forall|c: int| 0 <= c < t.width implies t.column_inked(c) == bm.column_inked(c + off) by {
        if t.column_inked(c) {
            let y = choose|y: int| 0 <= y < t.height && #[trigger] t.ink(c, y);
            assert(bm.ink(c + off, y));
        }
        if bm.column_inked(c + off) {
            let y = choose|y: int| 0 <= y < bm.height && #[trigger] bm.ink(c + off, y);
            assert(t.ink(c, y));
        }
    }
}

/// Trim capture gutters; centre only when the ink band is narrower than the head.
pub fn center_content_on_head(bitmap: MonoBitmap, head_width_dots: u32) -> (r: MonoBitmap)
    requires
        bitmap.wf(),
        head_width_dots as int + 7 <= u32::MAX,
        stride_of(head_width_dots as int) * (bitmap.height as int) <= usize::MAX,
    ensures
        r.wf(),
        r.height == bitmap.height,
        trimmed_width(bitmap) == 0 || bitmap.height == 0 || head_width_dots == 0
            || trimmed_width(bitmap) == head_width_dots ==> {
            &&& r.width == trimmed_width(bitmap)
            &&& forall|x: int, y: int|
                #![trigger r.ink(x, y)]
                0 <= x < r.spec_stride() * 8 && 0 <= y < r.height ==> r.ink(x, y) == trimmed_ink(
                    bitmap,
                    x,
                    y,
                )
        },
        !(trimmed_width(bitmap) == 0 || bitmap.height == 0 || head_width_dots == 0
            || trimmed_width(bitmap) == head_width_dots) ==> {
            &&& r.width == head_width_dots
            &&& forall|x: int, y: int|
                #![trigger r.ink(x, y)]
                0 <= x < r.spec_stride() * 8 && 0 <= y < r.height ==> r.ink(x, y) == if trimmed_width(
                    bitmap,
                ) >= head_width_dots {
                    x < head_width_dots && trimmed_ink(bitmap, x, y)
                } else {
                    centered_inset(trimmed_width(bitmap), head_width_dots as int) <= x
                        < centered_inset(trimmed_width(bitmap), head_width_dots as int)
                        + trimmed_width(bitmap) && trimmed_ink(
                        bitmap,
                        x - centered_inset(trimmed_width(bitmap), head_width_dots as int),
                        y,
                    )
                }
        },
{
    let ghost bm = bitmap;
    proof {
        lemma_ink_columns(bm);
    }
    let leading = trim_leading_blank_columns(bitmap);
    let ghost t1 = leading;
    proof {
        let l = bm.leading_blank_columns();
        let e = bm.ink_end();
        if 0 < l < bm.width {
            lemma_shifted_columns(t1, bm, l);
            lemma_ink_end_is(t1, t1.width as int, e - l);
        } else {
            assert(t1 == bm);
        }
    }
    let trimmed = trim_trailing_blank_columns(leading);
    proof {
        let l = bm.leading_blank_columns();
        let e = bm.ink_end();
        let tw = trimmed_width(bm);
        assert(trimmed.width == tw);
        assert forall|x: int, y: int|
            0 <= x < trimmed.spec_stride() * 8 && 0 <= y < trimmed.height implies #[trigger] trimmed.ink(x, y)
            == trimmed_ink(bm, x, y) by {
            if 0 < l < bm.width {
                assert(t1.ink(x, y) == (x < t1.width && bm.ink(x + l, y)));
            }
        }
        lemma_stride_mono(0, 0, 0);
    }
    if trimmed.width >= head_width_dots {
        return pad_bitmap_to_head(trimmed, head_width_dots);
    }
    pad_bitmap_to_head_centered(trimmed, head_width_dots)
}

} // verus!

verus! {

/// The printer name as matched against known heads: ASCII lower case, `_` read as a space.
pub open spec fn head_name_hay(printer: Seq<char>) -> Seq<char> {
    lower_all(printer).map_values(|c: char| if c == '_' { ' ' } else { c })
}

/// Bixolon SRP / BC-95 and Epson TM / Star / Citizen heads burn a 576-dot band.
pub open spec fn narrow_band_name(hay: Seq<char>) -> bool {
    ||| contains(hay, "bixolon"@)
    ||| contains(hay, "srp-"@)
    ||| contains(hay, "srp "@)
    ||| contains(hay, "srp330"@)
    ||| contains(hay, "srp350"@)
    ||| contains(hay, "srp382"@)
    ||| contains(hay, "bc-95"@)
    ||| contains(hay, "bc95"@)
    ||| contains(hay, "epson"@)
    ||| contains(hay, "tm-t"@)
    ||| contains(hay, "tm-m"@)
    ||| contains(hay, "tm-u"@)
    ||| contains(hay, "tm-p"@)
    ||| contains(hay, "star micronics"@)
    ||| contains(hay, "star tsp"@)
    ||| contains(hay, "tsp100"@)
    ||| contains(hay, "tsp143"@)
    ||| contains(hay, "citizen ct"@)
    ||| contains(hay, "citizen cbm"@)
}

/// Premium heads (Bixolon / Epson TM / Star / Citizen) that fill a 72mm
/// (576-dot) band; other 80mm printers need the full-width raster.
pub fn is_narrow_band_80mm_head(printer: &str) -> (r: bool)
    ensures
        r == narrow_band_name(head_name_hay(printer@)),
{
    let raw = str_chars(printer);
    let lower = lower_chars(&raw);
    let mut hay: Vec<char> = Vec::new();
    let mut i: usize = 0;
    while i < lower.len()
        invariant
            i <= lower@.len(),
            hay@ == lower@.subrange(0, i as int).map_values(|c: char| if c == '_' { ' ' } else { c }),
        decreases lower@.len() - i,
    {
        let c = lower[i];
        hay.push(if c == '_' { ' ' } else { c });
        i = i + 1;
        proof {
            assert(hay@ =~= lower@.subrange(0, i as int).map_values(|c: char| if c == '_' { ' ' } else { c }));
        }
    }
    proof {
        assert(lower@.subrange(0, lower@.len() as int) =~= lower@);
    }
    contains_str(&hay, "bixolon") || contains_str(&hay, "srp-") || contains_str(&hay, "srp ")
        || contains_str(&hay, "srp330") || contains_str(&hay, "srp350") || contains_str(&hay, "srp382")
        || contains_str(&hay, "bc-95") || contains_str(&hay, "bc95") || contains_str(&hay, "epson")
        || contains_str(&hay, "tm-t") || contains_str(&hay, "tm-m") || contains_str(&hay, "tm-u")
        || contains_str(&hay, "tm-p") || contains_str(&hay, "star micronics") || contains_str(
        &hay,
        "star tsp",
    ) || contains_str(&hay, "tsp100") || contains_str(&hay, "tsp143") || contains_str(
        &hay,
        "citizen ct",
    ) || contains_str(&hay, "citizen cbm")
}

/// Inverse of [`is_narrow_band_80mm_head`].
pub fn is_wide_80mm_left_align_head(printer: &str) -> (r: bool)
    ensures
        r == !narrow_band_name(head_name_hay(printer@)),
{
    !is_narrow_band_80mm_head(printer)
}

/// Geometry for the named printer: every head uses the band of its roll.
pub fn paper_geometry_for_printer(paper_mm: u32, _printer: &str) -> (r: (u32, u32))
    ensures
        r == spec_paper_geometry(paper_mm),
{
    paper_geometry(paper_mm)
}

/// ESC/POS payload width: the layout band's dot count.
pub fn payload_width_dots(paper_mm: u32, _printer: &str) -> (r: u32)
    ensures
        r == spec_paper_geometry(paper_mm).1,
{
    paper_geometry(paper_mm).1
}

/// Per-printer left nudge: disabled, the universal layout needs none.
pub fn left_margin_nudge_dots(_printer: &str, _paper_mm: u32) -> (r: u32)
    ensures
        r == 0,
{
    0
}

} // verus!

verus! {

/// Every roll's band is eight dots per millimetre (the 203 dpi dot pitch).
pub proof fn law_geometry_dot_pitch(paper_mm: u32)
    ensures
        spec_paper_geometry(paper_mm).1 == 8 * spec_paper_geometry(paper_mm).0,
{
}

/// Centring splits the leftover paper evenly: the right gutter is the left
/// one or one dot wider.
pub proof fn law_centered_gutters_balanced(width: int, head: int)
    requires
        0 <= width < head,
    ensures
        0 <= centered_inset(width, head),
        centered_inset(width, head) <= head - width - centered_inset(width, head) <= centered_inset(width, head)
            + 1,
{
}

/// Bands streamed from `row` on.
pub open spec fn band_count(h: int, row: int) -> int
    decreases h - row,
{
    if row < 0 || row >= h {
        0
    } else {
        1 + band_count(h, row + band_rows(h, row))
    }
}

/// The bit image goes out in bands of at most 128 rows: as many bands as
/// 128-row blocks (rounded up), each an 8-byte header and its rows.
pub proof fn law_raster_bands_size(bits: Seq<u8>, stride: int, h: int, row: int)
    requires
        0 <= row <= h,
        stride >= 0,
        bits.len() == stride * h,
    ensures
        band_count(h, row) == (h - row + 127) / 128,
        raster_bands(bits, stride, h, row).len() == (h - row) * stride + 8 * band_count(h, row),
    decreases h - row,
{
    if row < h {
        let rows = band_rows(h, row);
        assert(0 < rows <= 128);
        assert(row * stride <= (row + rows) * stride <= h * stride) by (nonlinear_arith)
            requires
                0 <= row,
                0 < rows,
                row + rows <= h,
                stride >= 0,
        ;
        assert((row + rows) * stride - row * stride == rows * stride) by (nonlinear_arith);
        assert((h - row) * stride == rows * stride + (h - (row + rows)) * stride) by (nonlinear_arith);
        assert(stride * h == h * stride) by (nonlinear_arith);
        assert(bits.subrange(row * stride, (row + rows) * stride).len() == rows * stride);
        assert(band_header(stride, rows).len() == 8);
        law_raster_bands_size(bits, stride, h, row + rows);
        let rest = raster_bands(bits, stride, h, row + rows);
        assert(raster_bands(bits, stride, h, row) == band_header(stride, rows) + bits.subrange(
            row * stride,
            (row + rows) * stride,
        ) + rest);
        assert(band_count(h, row) == 1 + band_count(h, row + rows));
        assert(rest.len() == (h - (row + rows)) * stride + 8 * band_count(h, row + rows));
        assert(raster_bands(bits, stride, h, row).len() == 8 + rows * stride + rest.len());
    } else {
        assert(raster_bands(bits, stride, h, row).len() == 0);
        assert(band_count(h, row) == 0);
        assert((h - row) * stride == 0) by (nonlinear_arith)
            requires
                row == h,
        ;
    }
}

/// A job opens with a reset (`ESC @`), claims the head width as print area
/// (`GS W`), and ends with one feed-and-cut (`GS V B n`).
pub proof fn law_escpos_job_frame(bm: MonoBitmap, head_width_dots: u32, cut_feed_units: u8)
    requires
        head_width_dots < 0xffff,
    ensures
        escpos_job(bm, head_width_dots, cut_feed_units).subrange(0, 2) == seq![0x1bu8, 0x40u8],
        escpos_job(bm, head_width_dots, cut_feed_units).subrange(16, 20) == seq![
            0x1du8,
            0x57u8,
            (head_width_dots % 256) as u8,
            (head_width_dots / 256) as u8,
        ],
        escpos_job(bm, head_width_dots, cut_feed_units).subrange(
            escpos_job(bm, head_width_dots, cut_feed_units).len() - 4,
            escpos_job(bm, head_width_dots, cut_feed_units).len() as int,
        ) == seq![0x1du8, 0x56u8, 0x42u8, cut_feed_units],
{
    let job = escpos_job(bm, head_width_dots, cut_feed_units);
    assert(job.subrange(0, 2) =~= seq![0x1bu8, 0x40u8]);
    assert(job.subrange(16, 20) =~= seq![
        0x1du8,
        0x57u8,
        (head_width_dots % 256) as u8,
        (head_width_dots / 256) as u8,
    ]);
    assert(job.subrange(job.len() - 4, job.len() as int) =~= seq![0x1du8, 0x56u8, 0x42u8, cut_feed_units]);
}

} // verus!
