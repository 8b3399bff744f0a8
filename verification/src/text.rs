//! Cutting text to a number of bytes.

use vstd::prelude::*;
use vstd::utf8::*;

verus! {

/// The greatest index up to `k` at which a character of `b` starts or `b` ends.
pub open spec fn boundary_up_to(b: Seq<u8>, k: int) -> int
    decreases k,
{
    if k <= 0 || is_char_boundary(b, k) {
        k
    } else {
        boundary_up_to(b, k - 1)
    }
}

/// The longest prefix of the text `b` of at most `cap` bytes that cuts no
/// character.
pub open spec fn clipped(b: Seq<u8>, cap: nat) -> Seq<u8> {
    if b.len() <= cap {
        b
    } else {
        b.take(boundary_up_to(b, cap as int))
    }
}

proof fn lemma_boundary(b: Seq<u8>, k: int)
    requires
        valid_utf8(b),
        0 <= k <= b.len(),
    ensures
        0 <= boundary_up_to(b, k) <= k,
        is_char_boundary(b, boundary_up_to(b, k)),
        forall|j: int| boundary_up_to(b, k) < j <= k ==> !is_char_boundary(b, j),
    decreases k,
{
    if k == 0 {
        is_char_boundary_start_end_of_seq(b);
    } else if !is_char_boundary(b, k) {
        lemma_boundary(b, k - 1);
    }
}

/// A clipped text fits, starts the text, is well-formed, and no longer prefix
/// that fits is.
pub proof fn law_clipped_is_longest_fitting_text(chars: Seq<char>, cap: nat)
    ensures
        ({
            let b = encode_utf8(chars);
            let c = clipped(b, cap);
            &&& c.len() <= cap
            &&& c.len() <= b.len()
            &&& c == b.take(c.len() as int)
            &&& valid_utf8(c)
            &&& forall|j: int|
                c.len() < j <= b.len() && j <= cap ==> !#[trigger] is_char_boundary(b, j)
        }),
{
    let b = encode_utf8(chars);
    encode_utf8_valid_utf8(chars);
    if b.len() <= cap {
        assert(b.take(b.len() as int) =~= b);
    } else {
        lemma_boundary(b, cap as int);
        valid_utf8_split(b, boundary_up_to(b, cap as int));
        assert(b.take(boundary_up_to(b, cap as int)) =~= b.subrange(
            0,
            boundary_up_to(b, cap as int),
        ));
    }
}

/// The longest prefix of `src` that fits in `cap` bytes without cutting a
/// character.
pub fn clip_to_buf(src: &str, cap: usize) -> (r: &[u8])
    ensures
        r@ == clipped(encode_utf8(src@), cap as nat),
        r@.len() <= cap,
{
    let bytes: &[u8] = src.as_bytes();
    let ghost b = encode_utf8(src@);
    if bytes.len() <= cap {
        return bytes;
    }
    proof {
        encode_utf8_valid_utf8(src@);
        is_char_boundary_start_end_of_seq(b);
    }
    let mut end: usize = cap;
    while end > 0 && !src.is_char_boundary(end)
        invariant
            end <= cap < b.len(),
            b == encode_utf8(src@),
            boundary_up_to(b, cap as int) == boundary_up_to(b, end as int),
        decreases end,
    {
        end = end - 1;
    }
    assert(b.subrange(0, end as int) =~= b.take(end as int));
    vstd::slice::slice_subrange(bytes, 0, end)
}

} // verus!
