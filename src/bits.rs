//! Bit strings packed eight to a byte, the first bit in the most significant
//! place of the first byte.
use vstd::prelude::*;

verus! {

/// 1 where bit `i` of `bits` is set, 0 otherwise (also outside the string).
pub open spec fn bit_value(bits: Seq<bool>, i: int) -> u8 {
    if 0 <= i < bits.len() && bits[i] {
        1u8
    } else {
        0u8
    }
}

/// The byte whose bits, from the most significant down, are `b0` to `b7`
/// (each 0 or 1).
#[verifier::inline]
pub open spec fn byte_of(b0: u8, b1: u8, b2: u8, b3: u8, b4: u8, b5: u8, b6: u8, b7: u8) -> u8 {
    (b0 << 7u8) | (b1 << 6u8) | (b2 << 5u8) | (b3 << 4u8) | (b4 << 3u8) | (b5 << 2u8) | (b6
        << 1u8) | b7
}

/// The byte that holds bits `base` to `base + 7`, the first in the most
/// significant place.
pub open spec fn byte_from_bits(bits: Seq<bool>, base: int) -> u8 {
    byte_of(
        bit_value(bits, base),
        bit_value(bits, base + 1),
        bit_value(bits, base + 2),
        bit_value(bits, base + 3),
        bit_value(bits, base + 4),
        bit_value(bits, base + 5),
        bit_value(bits, base + 6),
        bit_value(bits, base + 7),
    )
}

/// `bits` packed into `ceil(len / 8)` bytes; the bits that pad the last byte are 0.
pub open spec fn pack_bits(bits: Seq<bool>) -> Seq<u8> {
    Seq::new(((bits.len() + 7) / 8) as nat, |l: int| byte_from_bits(bits, 8 * l))
}

/// Bit `i` of a packed byte string.
pub open spec fn bit_at(bytes: Seq<u8>, i: int) -> bool {
    (bytes[i / 8] >> ((7 - i % 8) as u8)) & 1u8 == 1u8
}

proof fn lemma_byte_bits(b0: u8, b1: u8, b2: u8, b3: u8, b4: u8, b5: u8, b6: u8, b7: u8)
    by (bit_vector)
    requires
        b0 <= 1,
        b1 <= 1,
        b2 <= 1,
        b3 <= 1,
        b4 <= 1,
        b5 <= 1,
        b6 <= 1,
        b7 <= 1,
    ensures
        (byte_of(b0, b1, b2, b3, b4, b5, b6, b7) >> 7u8) & 1u8 == b0,
        (byte_of(b0, b1, b2, b3, b4, b5, b6, b7) >> 6u8) & 1u8 == b1,
        (byte_of(b0, b1, b2, b3, b4, b5, b6, b7) >> 5u8) & 1u8 == b2,
        (byte_of(b0, b1, b2, b3, b4, b5, b6, b7) >> 4u8) & 1u8 == b3,
        (byte_of(b0, b1, b2, b3, b4, b5, b6, b7) >> 3u8) & 1u8 == b4,
        (byte_of(b0, b1, b2, b3, b4, b5, b6, b7) >> 2u8) & 1u8 == b5,
        (byte_of(b0, b1, b2, b3, b4, b5, b6, b7) >> 1u8) & 1u8 == b6,
        (byte_of(b0, b1, b2, b3, b4, b5, b6, b7) >> 0u8) & 1u8 == b7,
{
}

/// Reading bit `i` of the packed string gives bit `i` of the string.
pub proof fn lemma_pack_bit(bits: Seq<bool>, i: int)
    requires
        0 <= i < bits.len(),
    ensures
        i / 8 < pack_bits(bits).len(),
        bit_at(pack_bits(bits), i) == bits[i],
{
    let l = i / 8;
    let t = i % 8;
    let base = 8 * l;
    assert(base + t == i);
    assert(l < (bits.len() + 7) / 8);
    let byte = byte_from_bits(bits, base);
    assert(pack_bits(bits)[l] == byte);
    lemma_byte_bits(
        bit_value(bits, base),
        bit_value(bits, base + 1),
        bit_value(bits, base + 2),
        bit_value(bits, base + 3),
        bit_value(bits, base + 4),
        bit_value(bits, base + 5),
        bit_value(bits, base + 6),
        bit_value(bits, base + 7),
    );
    if t == 0 {
        assert((byte >> 7u8) & 1u8 == bit_value(bits, base));
    } else if t == 1 {
        assert((byte >> 6u8) & 1u8 == bit_value(bits, base + 1));
    } else if t == 2 {
        assert((byte >> 5u8) & 1u8 == bit_value(bits, base + 2));
    } else if t == 3 {
        assert((byte >> 4u8) & 1u8 == bit_value(bits, base + 3));
    } else if t == 4 {
        assert((byte >> 3u8) & 1u8 == bit_value(bits, base + 4));
    } else if t == 5 {
        assert((byte >> 2u8) & 1u8 == bit_value(bits, base + 5));
    } else if t == 6 {
        assert((byte >> 1u8) & 1u8 == bit_value(bits, base + 6));
    } else if t == 7 {
        assert((byte >> 0u8) & 1u8 == bit_value(bits, base + 7));
    }
}

/// 1 where bit `base + t` of `bits` is set, else 0.
fn bit_value_at(bits: &Vec<bool>, base: usize, t: usize) -> (r: u8)
    requires
        base <= bits@.len(),
    ensures
        r == bit_value(bits@, base + t),
{
    if t < bits.len() - base && bits[base + t] {
        1
    } else {
        0
    }
}

/// Packs `bits` eight to a byte.
pub fn pack(bits: &Vec<bool>) -> (r: Vec<u8>)
    ensures
        r@ == pack_bits(bits@),
{
    let n = bits.len();
    let count = if n % 8 == 0 {
        n / 8
    } else {
        n / 8 + 1
    };
    let mut out: Vec<u8> = Vec::new();
    let mut l: usize = 0;
    while l < count
        invariant
            n == bits@.len(),
            count == (n + 7) / 8,
            l <= count,
            out@.len() == l,
            forall|k: int| 0 <= k < l ==> #[trigger] out@[k] == byte_from_bits(bits@, 8 * k),
        decreases count - l,
    {
        assert(8 * l < n) by (nonlinear_arith)
            requires
                l < count,
                count == (n + 7) / 8,
        ;
        let base = 8 * l;
        let b0 = bit_value_at(bits, base, 0);
        let b1 = bit_value_at(bits, base, 1);
        let b2 = bit_value_at(bits, base, 2);
        let b3 = bit_value_at(bits, base, 3);
        let b4 = bit_value_at(bits, base, 4);
        let b5 = bit_value_at(bits, base, 5);
        let b6 = bit_value_at(bits, base, 6);
        let b7 = bit_value_at(bits, base, 7);
        out.push((b0 << 7u8) | (b1 << 6u8) | (b2 << 5u8) | (b3 << 4u8) | (b4 << 3u8) | (b5 << 2u8) | (
            b6 << 1u8) | b7);
        l = l + 1;
    }
    assert(out@ =~= pack_bits(bits@));
    out
}

/// Bit `i` of a packed byte string.
pub fn get_bit(bytes: &Vec<u8>, i: usize) -> (r: bool)
    requires
        i / 8 < bytes@.len(),
    ensures
        r == bit_at(bytes@, i as int),
{
    (bytes[i / 8] >> ((7 - i % 8) as u8)) & 1u8 == 1u8
}

} // verus!
