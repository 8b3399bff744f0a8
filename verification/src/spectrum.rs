//! Buckets of the band: which frequency a bucket samples, and which bucket a
//! frequency falls into.

use vstd::prelude::*;

verus! {

/// Width of a band, 0 where the top lies below the bottom.
pub open spec fn span(bottom: u16, top: u16) -> int {
    if top > bottom {
        top - bottom
    } else {
        0
    }
}

/// The centre of bucket `i` of `n`, measured from the bottom of the band.
pub open spec fn centre_offset(s: int, n: int, i: int) -> int {
    (s * (2 * i + 1)) / (2 * n)
}

/// The frequency in the centre of bucket `i` of `n`.
pub open spec fn bucket_centre(bottom: u16, top: u16, n: int, i: int) -> int {
    let mid = bottom + centre_offset(span(bottom, top), n, i);
    if mid < top {
        mid
    } else {
        top as int
    }
}

/// The bucket of `n` that a frequency falls into.
pub open spec fn bucket_of(bottom: u16, top: u16, n: int, freq: int) -> int {
    let s = span(bottom, top);
    let k = ((freq - bottom) * n) / s;
    if freq < bottom || s == 0 {
        0
    } else if k < n - 1 {
        k
    } else {
        n - 1
    }
}

proof fn lemma_centre_below_span(s: int, n: int, i: int)
    requires
        0 <= s,
        0 <= i < n,
    ensures
        0 <= centre_offset(s, n, i) <= s,
{
    assert(0 <= s * (2 * i + 1) <= s * (2 * n)) by (nonlinear_arith)
        requires
            0 <= s,
            0 <= i < n,
    ;
    assert((s * (2 * i + 1)) / (2 * n) <= s && 0 <= (s * (2 * i + 1)) / (2 * n)) by (nonlinear_arith)
        requires
            0 <= s * (2 * i + 1) <= s * (2 * n),
            n > 0,
    ;
}

/// The frequency in the centre of bucket `i` of `n`.
pub fn bucket_centre_x10(bottom_x10: u16, top_x10: u16, n: usize, i: usize) -> (r: u16)
    requires
        i < n,
    ensures
        r == bucket_centre(bottom_x10, top_x10, n as int, i as int),
{
    let s: u16 = top_x10.saturating_sub(bottom_x10);
    proof {
        lemma_centre_below_span(s as int, n as int, i as int);
        assert(s * (2 * i + 1) <= 0xffff * 0x1_ffff_ffff_ffff_ffff) by (nonlinear_arith)
            requires
                0 <= s <= 0xffff,
                0 <= i <= 0xffff_ffff_ffff_ffff,
        ;
    }
    let offset: u128 = (s as u128 * (2 * i as u128 + 1)) / (2 * n as u128);
    let mid: u32 = bottom_x10 as u32 + offset as u32;
    if mid < top_x10 as u32 {
        mid as u16
    } else {
        top_x10
    }
}

/// The bucket of `n` that a frequency falls into. Frequencies below the band
/// fall into the first, those at its top and above into the last.
pub fn freq_to_bucket(bottom_x10: u16, top_x10: u16, n: usize, freq_x10: u16) -> (r: usize)
    requires
        n > 0,
    ensures
        r == bucket_of(bottom_x10, top_x10, n as int, freq_x10 as int),
        r < n,
{
    if freq_x10 < bottom_x10 {
        return 0;
    }
    let s: u16 = top_x10.saturating_sub(bottom_x10);
    if s == 0 {
        return 0;
    }
    let offset: u16 = freq_x10 - bottom_x10;
    assert(0 <= offset * n <= 0xffff * 0xffff_ffff_ffff_ffff) by (nonlinear_arith)
        requires
            0 <= offset <= 0xffff,
            0 <= n <= 0xffff_ffff_ffff_ffff,
    ;
    let k: u128 = (offset as u128 * n as u128) / s as u128;
    assert(((freq_x10 - bottom_x10) * n) / (s as int) >= 0) by (nonlinear_arith)
        requires
            freq_x10 >= bottom_x10,
            n > 0,
            s > 0,
    ;
    if k < (n - 1) as u128 {
        k as usize
    } else {
        n - 1
    }
}

/// The centre of every bucket lies in the band.
pub proof fn law_centre_in_band(bottom: u16, top: u16, n: int, i: int)
    requires
        bottom <= top,
        0 <= i < n,
    ensures
        bottom <= bucket_centre(bottom, top, n, i) <= top,
{
    lemma_centre_below_span(span(bottom, top), n, i);
}

/// Where a band is at least as wide as it has buckets, their centres rise
/// strictly.
pub proof fn law_centres_rise(bottom: u16, top: u16, n: int, i: int, j: int)
    requires
        bottom <= top,
        n <= top - bottom,
        0 <= i < j < n,
    ensures
        bucket_centre(bottom, top, n, i) < bucket_centre(bottom, top, n, j),
{
    let s = span(bottom, top);
    lemma_centre_below_span(s, n, i);
    lemma_centre_below_span(s, n, j);
    let x = s * (2 * i + 1);
    let y = s * (2 * j + 1);
    assert(x + 2 * n <= y) by (nonlinear_arith)
        requires
            x == s * (2 * i + 1),
            y == s * (2 * j + 1),
            i < j,
            0 < n <= s,
    ;
    assert(x / (2 * n) < y / (2 * n)) by (nonlinear_arith)
        requires
            x + 2 * n <= y,
            n > 0,
    ;
    assert(y < s * (2 * n)) by (nonlinear_arith)
        requires
            y == s * (2 * j + 1),
            j < n,
            s > 0,
    ;
    assert(x / (2 * n) < s) by (nonlinear_arith)
        requires
            x < y,
            y < s * (2 * n),
            n > 0,
    ;
}

/// Where a band is wide enough, the centre of a bucket falls into that bucket,
/// so that a cursor placed by frequency stands on the bar that was sampled.
pub proof fn law_centre_falls_into_its_bucket(bottom: u16, top: u16, n: int, i: int)
    requires
        bottom <= top,
        2 * n - 1 <= top - bottom,
        0 <= i < n,
    ensures
        bucket_of(bottom, top, n, bucket_centre(bottom, top, n, i)) == i,
{
    let s = span(bottom, top);
    lemma_centre_below_span(s, n, i);
    let c = centre_offset(s, n, i);
    let x = s * (2 * i + 1);
    assert(c * (2 * n) <= x < (c + 1) * (2 * n)) by (nonlinear_arith)
        requires
            c == x / (2 * n),
            n > 0,
    ;
    assert(c < s) by (nonlinear_arith)
        requires
            c * (2 * n) <= x,
            x == s * (2 * i + 1),
            i < n,
            s > 0,
            n > 0,
    ;
    assert((c * n) / s == i) by (nonlinear_arith)
        requires
            c * (2 * n) <= x,
            x < (c + 1) * (2 * n),
            x == s * (2 * i + 1),
            2 * n - 1 <= s,
            n > 0,
            s > 0,
            i >= 0,
    {
        // i * s <= c * n: from x < (c + 1) * 2n
        assert(s * (2 * i + 1) < 2 * (c * n) + 2 * n);
        assert(2 * (i * s) <= 2 * (c * n));
        assert(2 * (c * n) <= s * (2 * i + 1));
        assert(c * n < (i + 1) * s);
        assert(i * s <= c * n);
    }
}

/// A bucket is sampled in its middle: the centre of bucket `i` of `n` lies
/// `2 * i + 1` half buckets above the bottom, rounded down.
pub proof fn law_bucket_is_sampled_in_its_middle(bottom: u16, top: u16, n: int, i: int)
    requires
        bottom <= top,
        0 <= i < n,
    ensures
        ({
            let c = bucket_centre(bottom, top, n, i) - bottom;
            2 * n * c <= (top - bottom) * (2 * i + 1) < 2 * n * (c + 1)
        }),
{
    let s = span(bottom, top);
    lemma_centre_below_span(s, n, i);
    let x = s * (2 * i + 1);
    let c = centre_offset(s, n, i);
    assert(2 * n * c <= x < 2 * n * (c + 1)) by (nonlinear_arith)
        requires
            c == x / (2 * n),
            n > 0,
    ;
}

/// A frequency falls into the bucket whose bounds enclose it: of `n` buckets of
/// equal width, bucket `k` starts `k` widths above the bottom. What lies below
/// the band falls into the first, what lies at its top or above into the last.
pub proof fn law_frequency_falls_between_the_bounds(bottom: u16, top: u16, n: int, freq: int)
    requires
        bottom < top,
        n > 0,
    ensures
        ({
            let k = bucket_of(bottom, top, n, freq);
            &&& 0 <= k < n
            &&& bottom <= freq < top ==> k * (top - bottom) <= (freq - bottom) * n < (k + 1) * (top
                - bottom)
            &&& freq < bottom ==> k == 0
            &&& freq >= top ==> k == n - 1
        }),
{
    let s = span(bottom, top);
    if freq >= bottom {
        let x = (freq - bottom) * n;
        let q = x / s;
        assert(q * s <= x < (q + 1) * s) by (nonlinear_arith)
            requires
                q == x / s,
                s > 0,
        ;
        assert(x >= 0) by (nonlinear_arith)
            requires
                x == (freq - bottom) * n,
                freq >= bottom,
                n > 0,
        ;
        assert(q >= 0) by (nonlinear_arith)
            requires
                q == x / s,
                x >= 0,
                s > 0,
        ;
        if freq < top {
            assert(q <= n - 1) by (nonlinear_arith)
                requires
                    q * s <= x,
                    x == (freq - bottom) * n,
                    freq - bottom < s,
                    n > 0,
                    s > 0,
            ;
        } else {
            assert(q >= n) by (nonlinear_arith)
                requires
                    x < (q + 1) * s,
                    x == (freq - bottom) * n,
                    freq - bottom >= s,
                    n > 0,
                    s > 0,
            ;
        }
    }
}

} // verus!
