//! Dot-level model of packed 1bpp rows: MSB first, one bit per dot, rows of
//! `stride` bytes laid end to end.

use vstd::prelude::*;

verus! {

/// Mask of dot `k` (0 = leftmost) inside its byte.
pub open spec fn dot_mask(k: int) -> u8 {
    0x80u8 >> (k as u8)
}

/// Whether dot `k` (0..8, MSB first) of byte `b` is set.
pub open spec fn bit_of(b: u8, k: int) -> bool {
    b & dot_mask(k) != 0
}

/// Dot `x` of row `y` in packed rows of `stride` bytes.
pub open spec fn dot(bits: Seq<u8>, stride: int, x: int, y: int) -> bool {
    bit_of(bits[y * stride + x / 8], x % 8)
}

/// Dot `x` of a single packed row.
pub open spec fn row_dot(row: Seq<u8>, x: int) -> bool {
    bit_of(row[x / 8], x % 8)
}

/// Bytes needed for `width` dots.
pub open spec fn stride_of(width: int) -> int {
    (width + 7) / 8
}

pub proof fn lemma_bit_or_u8(b: u8, k: u8, j: u8)
    requires
        k < 8,
        j < 8,
    ensures
        ((b | (0x80u8 >> k)) & (0x80u8 >> j) != 0) == (j == k || b & (0x80u8 >> j) != 0),
{
    assert(((b | (0x80u8 >> k)) & (0x80u8 >> j) != 0) == (j == k || b & (0x80u8 >> j) != 0))
        by (bit_vector)
        requires
            k < 8,
            j < 8,
    ;
}

/// Setting dot `k` of a byte sets it and leaves the other seven alone.
pub proof fn lemma_bit_or(b: u8, k: int, j: int)
    requires
        0 <= k < 8,
        0 <= j < 8,
    ensures
        bit_of(b | dot_mask(k), j) == (j == k || bit_of(b, j)),
{
    lemma_bit_or_u8(b, k as u8, j as u8);
}

pub proof fn lemma_zero_byte(k: int)
    requires
        0 <= k < 8,
    ensures
        !bit_of(0u8, k),
{
    let kk = k as u8;
    assert(0u8 & (0x80u8 >> kk) == 0) by (bit_vector);
}

pub proof fn lemma_byte_ext_u8(a: u8, b: u8)
    requires
        (a & 0x80u8 != 0) == (b & 0x80u8 != 0),
        (a & 0x40u8 != 0) == (b & 0x40u8 != 0),
        (a & 0x20u8 != 0) == (b & 0x20u8 != 0),
        (a & 0x10u8 != 0) == (b & 0x10u8 != 0),
        (a & 0x08u8 != 0) == (b & 0x08u8 != 0),
        (a & 0x04u8 != 0) == (b & 0x04u8 != 0),
        (a & 0x02u8 != 0) == (b & 0x02u8 != 0),
        (a & 0x01u8 != 0) == (b & 0x01u8 != 0),
    ensures
        a == b,
{
    assert(a == b) by (bit_vector)
        requires
            (a & 0x80u8 != 0) == (b & 0x80u8 != 0),
            (a & 0x40u8 != 0) == (b & 0x40u8 != 0),
            (a & 0x20u8 != 0) == (b & 0x20u8 != 0),
            (a & 0x10u8 != 0) == (b & 0x10u8 != 0),
            (a & 0x08u8 != 0) == (b & 0x08u8 != 0),
            (a & 0x04u8 != 0) == (b & 0x04u8 != 0),
            (a & 0x02u8 != 0) == (b & 0x02u8 != 0),
            (a & 0x01u8 != 0) == (b & 0x01u8 != 0),
    ;
}

/// A byte is determined by its eight dots.
pub proof fn lemma_byte_ext(a: u8, b: u8)
    requires
        forall|k: int| 0 <= k < 8 ==> bit_of(a, k) == bit_of(b, k),
    ensures
        a == b,
{
    assert(bit_of(a, 0) == bit_of(b, 0));
    assert(bit_of(a, 1) == bit_of(b, 1));
    assert(bit_of(a, 2) == bit_of(b, 2));
    assert(bit_of(a, 3) == bit_of(b, 3));
    assert(bit_of(a, 4) == bit_of(b, 4));
    assert(bit_of(a, 5) == bit_of(b, 5));
    assert(bit_of(a, 6) == bit_of(b, 6));
    assert(bit_of(a, 7) == bit_of(b, 7));
    assert(0x80u8 >> 0u8 == 0x80u8) by (bit_vector);
    assert(0x80u8 >> 1u8 == 0x40u8) by (bit_vector);
    assert(0x80u8 >> 2u8 == 0x20u8) by (bit_vector);
    assert(0x80u8 >> 3u8 == 0x10u8) by (bit_vector);
    assert(0x80u8 >> 4u8 == 0x08u8) by (bit_vector);
    assert(0x80u8 >> 5u8 == 0x04u8) by (bit_vector);
    assert(0x80u8 >> 6u8 == 0x02u8) by (bit_vector);
    assert(0x80u8 >> 7u8 == 0x01u8) by (bit_vector);
    lemma_byte_ext_u8(a, b);
}

/// Position of a byte inside packed rows.
pub proof fn lemma_row_index(y: int, h: int, s: int, j: int)
    requires
        0 <= y < h,
        0 <= j < s,
    ensures
        0 <= y * s,
        y * s + j < h * s,
        y * s + s <= h * s,
{
    assert(0 <= y * s) by (nonlinear_arith)
        requires
            0 <= y,
            0 <= s,
    ;
    assert(y * s + s <= h * s) by (nonlinear_arith)
        requires
            0 <= y < h,
            0 <= s,
    ;
}

/// End of row `y` lies within `h` rows.
pub proof fn lemma_row_end(y: int, h: int, s: int)
    requires
        0 <= y < h,
        0 <= s,
    ensures
        0 <= y * s,
        y * s + s <= h * s,
        y * s + s <= s * h,
{
    assert(0 <= y * s) by (nonlinear_arith)
        requires
            0 <= y,
            0 <= s,
    ;
    assert(y * s + s <= h * s) by (nonlinear_arith)
        requires
            0 <= y < h,
            0 <= s,
    ;
    assert(h * s == s * h) by (nonlinear_arith);
}

/// Distinct (row, byte) pairs address distinct bytes.
pub proof fn lemma_row_index_inj(y1: int, j1: int, y2: int, j2: int, s: int)
    requires
        0 <= y1,
        0 <= y2,
        0 <= j1 < s,
        0 <= j2 < s,
        y1 * s + j1 == y2 * s + j2,
    ensures
        y1 == y2,
        j1 == j2,
{
    if y1 < y2 {
        assert(y1 * s + s <= y2 * s) by (nonlinear_arith)
            requires
                y1 < y2,
                0 <= s,
        ;
    } else if y2 < y1 {
        assert(y2 * s + s <= y1 * s) by (nonlinear_arith)
            requires
                y2 < y1,
                0 <= s,
        ;
    }
}

/// Two packed images of the same shape are equal when every dot agrees.
pub proof fn lemma_dots_determine_bits(a: Seq<u8>, b: Seq<u8>, s: int, h: int)
    requires
        0 <= s,
        0 <= h,
        a.len() == h * s,
        b.len() == h * s,
        forall|x: int, y: int| 0 <= x < s * 8 && 0 <= y < h ==> dot(a, s, x, y) == dot(b, s, x, y),
    ensures
        a == b,
{
    assert forall|i: int| 0 <= i < a.len() implies a[i] == b[i] by {
        let y = i / s;
        let j = i % s;
        assert(s > 0) by (nonlinear_arith)
            requires
                0 <= i < h * s,
                0 <= h,
                0 <= s,
        ;
        assert(i == y * s + j && 0 <= j < s && 0 <= y) by (nonlinear_arith)
            requires
                s > 0,
                y == i / s,
                j == i % s,
                0 <= i,
        ;
        assert(y < h) by (nonlinear_arith)
            requires
                s > 0,
                i == y * s + j,
                0 <= j,
                i < h * s,
        ;
        assert forall|k: int| 0 <= k < 8 implies bit_of(a[i], k) == bit_of(b[i], k) by {
            let x = j * 8 + k;
            assert(x / 8 == j && x % 8 == k);
            assert(dot(a, s, x, y) == dot(b, s, x, y));
        }
        lemma_byte_ext(a[i], b[i]);
    }
    assert(a =~= b);
}

/// Appending one row of `s` bytes to `y` complete rows.
pub proof fn lemma_append_row(out: Seq<u8>, row: Seq<u8>, s: int, y: int)
    requires
        0 <= y,
        0 <= s,
        out.len() == y * s,
        row.len() == s,
    ensures
        (out + row).len() == (y + 1) * s,
        forall|x: int, yy: int|
            #![trigger dot(out + row, s, x, yy)]
            0 <= x < s * 8 && 0 <= yy <= y ==> dot(out + row, s, x, yy) == if yy < y {
                dot(out, s, x, yy)
            } else {
                row_dot(row, x)
            },
{
    assert((y + 1) * s == y * s + s) by (nonlinear_arith);
    assert forall|x: int, yy: int|
        #![trigger dot(out + row, s, x, yy)]
        0 <= x < s * 8 && 0 <= yy <= y implies dot(out + row, s, x, yy) == if yy < y {
            dot(out, s, x, yy)
        } else {
            row_dot(row, x)
        } by {
        let j = x / 8;
        assert(0 <= j < s);
        if yy < y {
            lemma_row_index(yy, y, s, j);
        } else {
            assert(yy * s == y * s);
        }
    }
}

} // verus!

verus! {

/// Reads dot `x` of row `y` from packed rows of `stride` bytes.
pub fn read_dot(bits: &Vec<u8>, stride: usize, x: u32, y: u32) -> (r: bool)
    requires
        (x as int) < stride * 8,
        (y as int) * (stride as int) + stride <= bits@.len(),
    ensures
        r == dot(bits@, stride as int, x as int, y as int),
{
    let j = (x / 8) as usize;
    let n = bits.len();
    proof {
        assert(0 <= (y as int) * (stride as int)) by (nonlinear_arith)
            requires
                0 <= y,
                0 <= stride,
        ;
    }
    let base = y as usize * stride;
    let idx = base + j;
    let k = (x % 8) as u8;
    bits[idx] & (0x80u8 >> k) != 0
}

/// Sets dot `x` of a single packed row.
pub fn set_row_dot(row: &mut Vec<u8>, x: u32)
    requires
        (x as int) < old(row)@.len() * 8,
    ensures
        final(row)@.len() == old(row)@.len(),
        forall|xx: int|
            #![trigger row_dot(final(row)@, xx)]
            0 <= xx < old(row)@.len() * 8 ==> row_dot(final(row)@, xx) == (xx == x || row_dot(
                old(row)@,
                xx,
            )),
{
    let j = (x / 8) as usize;
    let k = (x % 8) as u8;
    let b = row[j];
    row.set(j, b | (0x80u8 >> k));
    proof {
        assert forall|xx: int|
            #![trigger row_dot(row@, xx)]
            0 <= xx < old(row)@.len() * 8 implies row_dot(row@, xx) == (xx == x || row_dot(
                old(row)@,
                xx,
            )) by {
            if xx / 8 == j {
                lemma_bit_or(b, k as int, xx % 8);
            }
        }
    }
}

/// A row of `n` zero bytes: every dot is white.
pub fn blank_row(n: usize) -> (row: Vec<u8>)
    ensures
        row@.len() == n,
        forall|i: int| 0 <= i < n ==> row@[i] == 0u8,
        forall|xx: int| #![trigger row_dot(row@, xx)] 0 <= xx < n * 8 ==> !row_dot(row@, xx),
{
    let row = vec![0u8; n];
    proof {
        assert forall|xx: int| #![trigger row_dot(row@, xx)] 0 <= xx < n * 8 implies !row_dot(row@, xx) by {
            lemma_zero_byte(xx % 8);
        }
    }
    row
}

} // verus!

verus! {

/// Set dots among the first `k` dots of byte `b`.
pub open spec fn pop_upto(b: u8, k: int) -> int
    decreases k,
{
    if k <= 0 {
        0
    } else {
        pop_upto(b, k - 1) + if bit_of(b, k - 1) {
            1int
        } else {
            0int
        }
    }
}

/// Set dots of a byte.
pub open spec fn byte_dots(b: u8) -> int {
    pop_upto(b, 8)
}

/// Set dots of a run of bytes.
pub open spec fn seq_dots(s: Seq<u8>) -> int
    decreases s.len(),
{
    if s.len() == 0 {
        0
    } else {
        seq_dots(s.drop_last()) + byte_dots(s.last())
    }
}

pub proof fn lemma_pop_upto_bounds(b: u8, k: int)
    requires
        0 <= k,
    ensures
        0 <= pop_upto(b, k) <= k,
    decreases k,
{
    if k > 0 {
        lemma_pop_upto_bounds(b, k - 1);
    }
}

/// Dots of a prefix never exceed the dots of the whole, and a run of `n` bytes
/// holds at most `8 n` dots.
pub proof fn lemma_seq_dots_prefix(s: Seq<u8>, i: int)
    requires
        0 <= i <= s.len(),
    ensures
        0 <= seq_dots(s.take(i)) <= seq_dots(s),
        seq_dots(s) <= 8 * s.len(),
    decreases s.len(),
{
    if s.len() > 0 {
        lemma_pop_upto_bounds(s.last(), 8);
        if i == s.len() {
            assert(s.take(i) =~= s);
            lemma_seq_dots_prefix(s.drop_last(), i - 1);
        } else {
            assert(s.drop_last().take(i) =~= s.take(i));
            lemma_seq_dots_prefix(s.drop_last(), i);
        }
    }
}

/// Number of set dots in a byte.
pub fn count_byte_dots(b: u8) -> (r: u32)
    ensures
        r == byte_dots(b),
{
    let mut c: u32 = 0;
    let mut k: u8 = 0;
    while k < 8
        invariant
            k <= 8,
            c == pop_upto(b, k as int),
            c <= k,
        decreases 8 - k,
    {
        proof {
            lemma_pop_upto_bounds(b, k as int);
        }
        if b & (0x80u8 >> k) != 0 {
            c = c + 1;
        }
        k = k + 1;
    }
    c
}

/// Number of set dots in a packed row.
pub fn row_dot_count(row: &[u8]) -> (r: u32)
    requires
        seq_dots(row@) <= u32::MAX,
    ensures
        r == seq_dots(row@),
{
    let n = row.len();
    let mut total: u32 = 0;
    let mut i: usize = 0;
    while i < n
        invariant
            n == row@.len(),
            i <= n,
            total == seq_dots(row@.take(i as int)),
            seq_dots(row@) <= u32::MAX,
        decreases n - i,
    {
        proof {
            lemma_seq_dots_prefix(row@, i as int + 1);
            assert(row@.take(i as int + 1).drop_last() =~= row@.take(i as int));
        }
        let c = count_byte_dots(row[i]);
        total = total + c;
        i = i + 1;
    }
    proof {
        assert(row@.take(n as int) =~= row@);
    }
    total
}

} // verus!
