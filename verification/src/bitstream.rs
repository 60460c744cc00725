use vstd::prelude::*;

verus! {

/// Bit `k` of byte `b`, counting `k` from the most significant bit (`k == 0`)
/// down to the least significant (`k == 7`).
pub open spec fn bit_at(b: u8, k: int) -> u8
    recommends
        0 <= k < 8,
{
    (b >> ((7 - k) as u8)) & 1
}

/// The bit sequence expanded from a byte sequence: bit `8 * i + k` is bit `k`
/// of byte `i`, most significant bit first, so the result is eight times as
/// long as the input.
pub open spec fn bits_of(s: Seq<u8>) -> Seq<u8> {
    Seq::new(s.len() * 8, |j: int| bit_at(s[j / 8], j % 8))
}

/// Every expanded bit is a single-bit value.
pub proof fn lemma_bit_at_binary(b: u8, k: int)
    requires
        0 <= k < 8,
    ensures
        bit_at(b, k) == 0 || bit_at(b, k) == 1,
{
    let sh = (7 - k) as u8;
    assert((b >> sh) & 1 == 0 || (b >> sh) & 1 == 1) by (bit_vector);
}

/// Every element of the expanded bit sequence is 0 or 1.
pub proof fn lemma_bits_of_binary(s: Seq<u8>)
    ensures
        forall|j: int|
            0 <= j < bits_of(s).len() ==> bits_of(s)[j] == 0 || bits_of(s)[j] == 1,
{
    assert forall|j: int|
        0 <= j < bits_of(s).len() implies bits_of(s)[j] == 0 || bits_of(s)[j] == 1 by {
        lemma_bit_index_in_range(s.len() as int, j);
        lemma_bit_at_binary(s[j / 8], j % 8);
    }
}

/// Index arithmetic for the expansion: position `j` of the bit sequence of a
/// byte sequence of length `len` reads byte `j / 8` at bit offset `j % 8`.
pub proof fn lemma_bit_index_in_range(len: int, j: int)
    requires
        0 <= j < len * 8,
    ensures
        0 <= j / 8 < len,
        0 <= j % 8 < 8,
{
    assert(0 <= j / 8 < len && 0 <= j % 8 < 8) by (nonlinear_arith)
        requires
            0 <= j < len * 8,
    ;
}

} // verus!
