//! Distribution of a width over a number of columns.

use vstd::arithmetic::div_mod::{
    lemma_div_is_ordered, lemma_div_is_ordered_by_denominator, lemma_fundamental_div_mod,
    lemma_fundamental_div_mod_converse, lemma_mod_division_less_than_divisor,
};
use vstd::prelude::*;

verus! {

/// The width that position `i` receives when `width` units are spread over
/// `cols` slots: the running total over the first `i` slots is
/// `(i * width) / cols`, and slot `i` receives the difference between
/// consecutive running totals.
pub open spec fn split_share(width: int, cols: int, i: int) -> int {
    ((i + 1) * width) / cols - (i * width) / cols
}

/// The sum of a sequence of machine widths, as a mathematical integer.
pub open spec fn width_sum(s: Seq<usize>) -> int
    decreases s.len(),
{
    if s.len() == 0 {
        0
    } else {
        width_sum(s.drop_last()) + s.last()
    }
}

/// `(i * width) / cols` splits into `i` whole quotients plus the quotient of
/// the accumulated remainders, `(i * (width % cols)) / cols`.
proof fn lemma_mul_div_split(width: int, cols: int, i: int)
    requires
        cols > 0,
        i >= 0,
        width >= 0,
    ensures
        (i * width) / cols == i * (width / cols) + (i * (width % cols)) / cols,
        (i * width) % cols == (i * (width % cols)) % cols,
{
    let q = width / cols;
    let r = width % cols;
    lemma_fundamental_div_mod(width, cols);
    lemma_fundamental_div_mod(i * r, cols);
    lemma_mod_division_less_than_divisor(i * r, cols);
    let d = (i * r) / cols;
    let m = (i * r) % cols;
    assert(i * width == cols * (i * q + d) + m) by (nonlinear_arith)
        requires
            width == cols * q + r,
            i * r == cols * d + m,
    ;
    lemma_fundamental_div_mod_converse(i * width, cols, i * q + d, m);
}

/// One step of the distribution: slot `i` receives the base quotient plus the
/// carry, and the remainder carried into slot `i + 1` is reduced modulo
/// `cols`.
proof fn lemma_split_share_value(width: int, cols: int, i: int)
    requires
        cols > 0,
        i >= 0,
        width >= 0,
    ensures
        split_share(width, cols, i) == width / cols + ((i * (width % cols)) % cols + width % cols)
            / cols,
        ((i + 1) * (width % cols)) % cols == ((i * (width % cols)) % cols + width % cols) % cols,
{
    let q = width / cols;
    let r = width % cols;
    lemma_fundamental_div_mod(width, cols);
    lemma_mul_div_split(width, cols, i);
    lemma_mul_div_split(width, cols, i + 1);
    let d = (i * r) / cols;
    let m = (i * r) % cols;
    let s = m + r;
    lemma_fundamental_div_mod(i * r, cols);
    lemma_fundamental_div_mod(s, cols);
    lemma_mod_division_less_than_divisor(s, cols);
    lemma_mod_division_less_than_divisor(i * r, cols);
    assert((i + 1) * r == cols * (d + s / cols) + s % cols) by (nonlinear_arith)
        requires
            i * r == cols * d + m,
            s == m + r,
            s == cols * (s / cols) + s % cols,
    ;
    lemma_fundamental_div_mod_converse((i + 1) * r, cols, d + s / cols, s % cols);
    assert((i + 1) * q == i * q + q) by (nonlinear_arith);
}

/// The sum of the entries of `s` with index in `[lo, hi)`, entries outside
/// the sequence counting as zero.
pub open spec fn sum_range(s: Seq<int>, lo: int, hi: int) -> int
    decreases hi - lo,
{
    if lo >= hi {
        0
    } else {
        sum_range(s, lo, hi - 1) + (if 0 <= hi - 1 < s.len() {
            s[hi - 1]
        } else {
            0
        })
    }
}

/// A sum over `[lo, hi)` splits at any point in between.
pub proof fn lemma_sum_range_concat(s: Seq<int>, lo: int, mid: int, hi: int)
    requires
        lo <= mid <= hi,
    ensures
        sum_range(s, lo, hi) == sum_range(s, lo, mid) + sum_range(s, mid, hi),
    decreases hi - mid,
{
    if mid < hi {
        lemma_sum_range_concat(s, lo, mid, hi - 1);
        lemma_sum_range_concat(s, lo, mid + 1, hi);
        lemma_sum_range_concat(s, mid, mid + 1, hi);
    }
}

/// Sums over ranges whose entries agree, entry by entry, are equal.
pub proof fn lemma_sum_range_shift(a: Seq<int>, lo1: int, b: Seq<int>, lo2: int, n: int)
    requires
        n >= 0,
        0 <= lo1,
        lo1 + n <= a.len(),
        0 <= lo2,
        lo2 + n <= b.len(),
        forall|i: int| 0 <= i < n ==> #[trigger] a[lo1 + i] == b[lo2 + i],
    ensures
        sum_range(a, lo1, lo1 + n) == sum_range(b, lo2, lo2 + n),
    decreases n,
{
    if n > 0 {
        lemma_sum_range_shift(a, lo1, b, lo2, n - 1);
        assert(a[lo1 + (n - 1)] == b[lo2 + (n - 1)]);
    }
}

/// A sum over entries that dominate, entry by entry, dominates the sum.
pub proof fn lemma_sum_range_mono(a: Seq<int>, b: Seq<int>, lo: int, hi: int)
    requires
        0 <= lo,
        hi <= a.len(),
        hi <= b.len(),
        forall|i: int| lo <= i < hi ==> a[i] >= b[i],
    ensures
        sum_range(a, lo, hi) >= sum_range(b, lo, hi),
    decreases hi - lo,
{
    if lo < hi {
        lemma_sum_range_mono(a, b, lo, hi - 1);
    }
}

/// The first `k` shares sum to the `k`-th running total, `(k * width) / cols`.
pub proof fn lemma_split_share_prefix_sum(width: int, cols: int, k: int)
    requires
        cols >= 1,
        width >= 0,
        0 <= k <= cols,
    ensures
        sum_range(Seq::new(cols as nat, |i: int| split_share(width, cols, i)), 0, k) == (k * width)
            / cols,
    decreases k,
{
    if k == 0 {
        lemma_fundamental_div_mod_converse(0, cols, 0, 0);
    } else {
        lemma_split_share_prefix_sum(width, cols, k - 1);
        assert(k * width == (k - 1) * width + width) by (nonlinear_arith);
        assert(((k - 1) + 1) * width == k * width);
    }
}

/// All `cols` shares together sum to `width` exactly.
pub proof fn lemma_split_share_sum(width: int, cols: int)
    requires
        cols >= 1,
        width >= 0,
    ensures
        sum_range(Seq::new(cols as nat, |i: int| split_share(width, cols, i)), 0, cols) == width,
{
    lemma_split_share_prefix_sum(width, cols, cols);
    assert(cols * width == width * cols + 0) by (nonlinear_arith);
    lemma_fundamental_div_mod_converse(cols * width, cols, width, 0);
}

/// Every share lies between the base quotient and the base quotient plus
/// one; in particular no share is negative.
pub proof fn lemma_split_share_bounds(width: int, cols: int, i: int)
    requires
        cols >= 1,
        width >= 0,
        0 <= i < cols,
    ensures
        width / cols <= split_share(width, cols, i) <= width / cols + 1,
        split_share(width, cols, i) >= 0,
{
    lemma_split_share_value(width, cols, i);
    lemma_mod_division_less_than_divisor(i * (width % cols), cols);
    lemma_mod_division_less_than_divisor(width, cols);
    let s = (i * (width % cols)) % cols + width % cols;
    if s < cols {
        lemma_fundamental_div_mod_converse(s, cols, 0, s);
    } else {
        lemma_fundamental_div_mod_converse(s, cols, 1, s - cols);
    }
    lemma_fundamental_div_mod_converse(0, cols, 0, 0);
    lemma_div_is_ordered(0, width, cols);
}

/// Splits `width` into `cols` non-negative parts that sum to `width` and
/// differ pairwise by at most one, rounding while carrying the accumulated
/// fractional error forward. Zero columns yield an empty vector.
pub fn evenly_split_width(width: usize, cols: usize) -> (r: Vec<usize>)
    ensures
        r@.len() == cols,
        forall|i: int| 0 <= i < cols ==> r@[i] == split_share(width as int, cols as int, i),
        cols > 0 ==> width_sum(r@) == width,
        forall|i: int|
            0 <= i < cols ==> width as int / cols as int <= #[trigger] r@[i] <= width as int
                / cols as int + 1,
        forall|i: int, j: int|
            0 <= i < cols && 0 <= j < cols ==> #[trigger] r@[i] - #[trigger] r@[j] <= 1,
{
    let mut rv: Vec<usize> = Vec::new();
    if cols == 0 {
        return rv;
    }
    let q: usize = width / cols;
    let rem: usize = width % cols;
    let cols_wide: u128 = cols as u128;
    let rem_wide: u128 = rem as u128;
    let mut err: u128 = 0;
    let mut total: usize = 0;
    let mut idx: usize = 0;
    proof {
        lemma_mod_division_less_than_divisor(width as int, cols as int);
        lemma_fundamental_div_mod_converse(0, cols as int, 0, 0);
    }
    while idx < cols
        invariant
            0 < cols,
            q == width as int / cols as int,
            rem == width as int % cols as int,
            rem < cols,
            cols_wide == cols,
            rem_wide == rem,
            idx <= cols,
            rv@.len() == idx,
            forall|i: int| 0 <= i < idx ==> rv@[i] == split_share(width as int, cols as int, i),
            err == (idx as int * rem as int) % (cols as int),
            err < cols_wide,
            total == (idx as int * width as int) / (cols as int),
            total <= width,
            width_sum(rv@) == total,
        decreases cols - idx,
    {
        let ghost c: int = cols as int;
        let ghost m0: int = err as int;
        let mut w: usize = q;
        proof {
            lemma_mod_division_less_than_divisor(idx as int * rem as int, c);
            if cols >= 2 {
                lemma_div_is_ordered_by_denominator(width as int, 2, c);
            }
        }
        err = err + rem_wide;
        while err >= cols_wide
            invariant
                0 < cols,
                cols_wide == cols,
                rem < cols,
                q == width as int / cols as int,
                width as int / 2 >= width as int / cols as int || cols == 1,
                w as int * cols as int + err as int == q as int * cols as int + m0 + rem,
                err <= m0 + rem,
                0 <= m0 < cols as int,
            decreases err,
        {
            proof {
                assert((w as int + 1) * cols as int <= q as int * cols as int + m0
                    + rem) by (nonlinear_arith)
                    requires
                        w as int * cols as int + err as int == q as int * cols as int + m0 + rem,
                        err as int >= cols as int,
                ;
                assert(w < q + 1) by (nonlinear_arith)
                    requires
                        (w as int + 1) * cols as int <= q as int * cols as int + m0 + rem,
                        m0 + rem < 2 * cols as int,
                        cols as int > 0,
                ;
                // A carry only happens when a remainder exists, so there are
                // at least two columns and the base quotient has headroom.
                assert(rem >= 1);
                assert(cols >= 2);
                assert(w as int + 1 <= width as int / 2 + 1);
                assert((w as int + 1) * cols as int == w as int * cols as int
                    + cols as int) by (nonlinear_arith);
            }
            w = w + 1;
            err = err - cols_wide;
        }
        proof {
            let i = idx as int;
            let qq = q as int;
            let rr = rem as int;
            let s = m0 + rr;
            let k = w as int - qq;
            assert(k * c + err as int == s) by (nonlinear_arith)
                requires
                    w as int * c + err as int == qq * c + s,
                    k == w as int - qq,
            ;
            lemma_fundamental_div_mod_converse(s, c, k, err as int);
            lemma_split_share_value(width as int, c, i);
            assert(w as int == split_share(width as int, c, i));
            // The next running total is the next prefix quotient, directly
            // from the definition of `split_share`.
            assert(total as int + w as int == ((i + 1) * width as int) / c);
            assert((i + 1) * width as int <= c * width as int) by (nonlinear_arith)
                requires
                    i + 1 <= c,
                    width as int >= 0,
            ;
            lemma_div_is_ordered((i + 1) * width as int, c * width as int, c);
            lemma_fundamental_div_mod_converse(c * width as int, c, width as int, 0);
            lemma_mod_division_less_than_divisor((i + 1) * rr, c);
        }
        let ghost prev = rv@;
        rv.push(w);
        total = total + w;
        idx = idx + 1;
        proof {
            assert(rv@.drop_last() =~= prev);
        }
    }
    proof {
        assert(cols as int * width as int == width as int * cols as int + 0) by (nonlinear_arith);
        lemma_fundamental_div_mod_converse(
            cols as int * width as int,
            cols as int,
            width as int,
            0,
        );
        assert forall|i: int| 0 <= i < cols implies width as int / cols as int <= #[trigger] rv@[i]
            <= width as int / cols as int + 1 by {
            lemma_split_share_value(width as int, cols as int, i);
            lemma_mod_division_less_than_divisor(i * (width as int % cols as int), cols as int);
            lemma_mod_division_less_than_divisor(width as int, cols as int);
            let s = (i * (width as int % cols as int)) % (cols as int) + width as int
                % cols as int;
            if s < cols as int {
                lemma_fundamental_div_mod_converse(s, cols as int, 0, s);
            } else {
                lemma_fundamental_div_mod_converse(s, cols as int, 1, s - cols as int);
            }
        }
    }
    rv
}

} // verus!

