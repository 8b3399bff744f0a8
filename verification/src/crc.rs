//! CRC-32 (ISO-HDLC polynomial, reflected), bit by bit.

use vstd::prelude::*;

verus! {

/// One bit of the shift register.
pub open spec fn crc_bit(c: u32) -> u32 {
    if c & 1 != 0 {
        (c >> 1) ^ 0xEDB8_8320u32
    } else {
        c >> 1
    }
}

/// `n` bits of the shift register.
pub open spec fn crc_bits(c: u32, n: nat) -> u32
    decreases n,
{
    if n == 0 {
        c
    } else {
        crc_bit(crc_bits(c, (n - 1) as nat))
    }
}

/// The register after one more byte.
pub open spec fn crc_byte(c: u32, b: u8) -> u32 {
    crc_bits(c ^ (b as u32), 8)
}

/// The register after all bytes.
pub open spec fn crc_register(data: Seq<u8>) -> u32
    decreases data.len(),
{
    if data.len() == 0 {
        0xFFFF_FFFF
    } else {
        crc_byte(crc_register(data.drop_last()), data.last())
    }
}

/// The checksum of a sequence of bytes.
pub open spec fn crc_of(data: Seq<u8>) -> u32 {
    !crc_register(data)
}

/// The checksum of `data`.
pub fn crc32(data: &[u8]) -> (r: u32)
    ensures
        r == crc_of(data@),
{
    let mut crc: u32 = 0xFFFF_FFFF;
    let mut i: usize = 0;
    while i < data.len()
        invariant
            0 <= i <= data@.len(),
            crc == crc_register(data@.take(i as int)),
        decreases data@.len() - i,
    {
        let ghost before = crc;
        let byte: u8 = data[i];
        crc = crc ^ (byte as u32);
        let mut k: u8 = 0;
        while k < 8
            invariant
                0 <= k <= 8,
                crc == crc_bits(before ^ (byte as u32), k as nat),
            decreases 8 - k,
        {
            if crc & 1 != 0 {
                crc = (crc >> 1) ^ 0xEDB8_8320;
            } else {
                crc = crc >> 1;
            }
            k = k + 1;
        }
        assert(data@.take(i + 1).drop_last() =~= data@.take(i as int));
        i = i + 1;
    }
    assert(data@.take(data@.len() as int) =~= data@);
    !crc
}

proof fn lemma_crc_bits_injective(a: u32, b: u32, n: nat)
    requires
        a != b,
    ensures
        crc_bits(a, n) != crc_bits(b, n),
    decreases n,
{
    if n > 0 {
        let m = (n - 1) as nat;
        lemma_crc_bits_injective(a, b, m);
        let x = crc_bits(a, m);
        let y = crc_bits(b, m);
        assert(x != y ==> crc_bit(x) != crc_bit(y)) by (bit_vector);
    }
}

/// The checksum detects every change of a single byte.
pub proof fn law_crc_detects_one_changed_byte(a: Seq<u8>, b: Seq<u8>, i: int)
    requires
        a.len() == b.len(),
        0 <= i < a.len(),
        a[i] != b[i],
        forall|j: int| 0 <= j < a.len() && j != i ==> a[j] == b[j],
    ensures
        crc_of(a) != crc_of(b),
{
    lemma_register_differs(a, b, i);
    let x = crc_register(a);
    let y = crc_register(b);
    assert(x != y ==> !x != !y) by (bit_vector);
}

proof fn lemma_register_differs(a: Seq<u8>, b: Seq<u8>, i: int)
    requires
        a.len() == b.len(),
        0 <= i < a.len(),
        a[i] != b[i],
        forall|j: int| 0 <= j < a.len() && j != i ==> a[j] == b[j],
    ensures
        crc_register(a) != crc_register(b),
    decreases a.len(),
{
    let x = crc_register(a.drop_last());
    let y = crc_register(b.drop_last());
    let p = a.last();
    let q = b.last();
    if i == a.len() - 1 {
        assert(a.drop_last() =~= b.drop_last());
        assert(p != q ==> x ^ (p as u32) != x ^ (q as u32)) by (bit_vector);
        lemma_crc_bits_injective(x ^ (p as u32), y ^ (q as u32), 8);
    } else {
        lemma_register_differs(a.drop_last(), b.drop_last(), i);
        assert(x != y ==> x ^ (p as u32) != y ^ (p as u32)) by (bit_vector);
        lemma_crc_bits_injective(x ^ (p as u32), y ^ (q as u32), 8);
    }
}

/// A message with its checksum behind it, least significant byte first, leaves
/// the same register whatever the message: the residue of this polynomial.
pub proof fn law_checked_message_leaves_the_residue(data: Seq<u8>)
    ensures
        ({
            let c = crc_of(data);
            crc_register(
                data.push((c & 0xFF) as u8).push((c >> 8 & 0xFF) as u8).push(
                    (c >> 16 & 0xFF) as u8,
                ).push((c >> 24 & 0xFF) as u8),
            ) == 0xDEBB_20E3
        }),
{
    let r = crc_register(data);
    let c = crc_of(data);
    let b0 = (c & 0xFF) as u8;
    let b1 = (c >> 8 & 0xFF) as u8;
    let b2 = (c >> 16 & 0xFF) as u8;
    let b3 = (c >> 24 & 0xFF) as u8;
    let d1 = data.push(b0);
    let d2 = d1.push(b1);
    let d3 = d2.push(b2);
    let d4 = d3.push(b3);
    assert(d1.drop_last() =~= data);
    assert(d2.drop_last() =~= d1);
    assert(d3.drop_last() =~= d2);
    assert(d4.drop_last() =~= d3);
    let r1 = crc_byte(r, b0);
    let r2 = crc_byte(r1, b1);
    let r3 = crc_byte(r2, b2);
    let r4 = crc_byte(r3, b3);
    lemma_byte_is_eight_bits(r, b0);
    lemma_byte_is_eight_bits(r1, b1);
    lemma_byte_is_eight_bits(r2, b2);
    lemma_byte_is_eight_bits(r3, b3);
    assert(r1 == (r >> 8) ^ 0x2D02_EF8D) by (bit_vector)
        requires
            c == !r,
            b0 == (c & 0xFF) as u8,
            r1 == crc_bit(
                crc_bit(
                    crc_bit(
                        crc_bit(
                            crc_bit(crc_bit(crc_bit(crc_bit(r ^ (b0 as u32))))),
                        ),
                    ),
                ),
            ),
    ;
    lemma_residue(r, r1, r2, r3, r4, b1, b2, b3);
    assert(crc_register(d1) == r1);
    assert(crc_register(d2) == r2);
    assert(crc_register(d3) == r3);
    assert(crc_register(d4) == r4);
}

proof fn lemma_byte_is_eight_bits(c: u32, b: u8)
    ensures
        crc_byte(c, b) == crc_bit(
            crc_bit(
                crc_bit(crc_bit(crc_bit(crc_bit(crc_bit(crc_bit(c ^ (b as u32)))))),
                ),
            ),
        ),
{
    reveal_with_fuel(crc_bits, 9);
}

proof fn lemma_residue(
    r: u32,
    r1: u32,
    r2: u32,
    r3: u32,
    r4: u32,
    b1: u8,
    b2: u8,
    b3: u8,
)
    requires
        b1 == (!r >> 8 & 0xFF) as u8,
        b2 == (!r >> 16 & 0xFF) as u8,
        b3 == (!r >> 24 & 0xFF) as u8,
        r1 == (r >> 8) ^ 0x2D02_EF8D,
        r2 == crc_bit(crc_bit(crc_bit(crc_bit(crc_bit(crc_bit(crc_bit(crc_bit(r1 ^ (b1 as u32))))))))),
        r3 == crc_bit(crc_bit(crc_bit(crc_bit(crc_bit(crc_bit(crc_bit(crc_bit(r2 ^ (b2 as u32))))))))),
        r4 == crc_bit(crc_bit(crc_bit(crc_bit(crc_bit(crc_bit(crc_bit(crc_bit(r3 ^ (b3 as u32))))))))),
    ensures
        r4 == 0xDEBB_20E3,
{
    assert(r4 == 0xDEBB_20E3u32) by (bit_vector)
        requires
            b1 == (!r >> 8 & 0xFF) as u8,
            b2 == (!r >> 16 & 0xFF) as u8,
            b3 == (!r >> 24 & 0xFF) as u8,
            r1 == (r >> 8) ^ 0x2D02_EF8D,
            r2 == crc_bit(crc_bit(crc_bit(crc_bit(crc_bit(crc_bit(crc_bit(crc_bit(r1 ^ (b1 as u32))))))))),
            r3 == crc_bit(crc_bit(crc_bit(crc_bit(crc_bit(crc_bit(crc_bit(crc_bit(r2 ^ (b2 as u32))))))))),
            r4 == crc_bit(crc_bit(crc_bit(crc_bit(crc_bit(crc_bit(crc_bit(crc_bit(r3 ^ (b3 as u32))))))))),
    ;
}

} // verus!
