//! Bytes on the wire: the field delimiter, byte sums and the three-digit
//! checksum value.

use vstd::prelude::*;

verus! {

/// The field delimiter, "start of header".
pub const SOH: u8 = 1;

/// Checksums are taken modulo this.
pub const CHECKSUM_MODULUS: u32 = 256;

/// Sum of the byte values of `bytes`.
pub open spec fn byte_sum(bytes: Seq<u8>) -> nat
    decreases bytes.len(),
{
    if bytes.len() == 0 {
        0
    } else {
        byte_sum(bytes.drop_last()) + bytes.last() as nat
    }
}

/// The checksum of `bytes`: their sum modulo 256.
pub open spec fn checksum_of(bytes: Seq<u8>) -> nat {
    byte_sum(bytes) % 256
}

/// The byte sum of a concatenation is the sum of the parts' byte sums.
pub proof fn lemma_byte_sum_concat(a: Seq<u8>, b: Seq<u8>)
    ensures
        byte_sum(a + b) == byte_sum(a) + byte_sum(b),
    decreases b.len(),
{
    if b.len() == 0 {
        assert(a + b =~= a);
    } else {
        lemma_byte_sum_concat(a, b.drop_last());
        assert((a + b).drop_last() =~= a + b.drop_last());
        assert((a + b).last() == b.last());
    }
}

/// Checksum of the bytes of `bytes` from `from` up to `to`.
pub fn checksum_range(bytes: &[u8], from: usize, to: usize) -> (sum: u32)
    requires
        from <= to <= bytes@.len(),
    ensures
        sum == checksum_of(bytes@.subrange(from as int, to as int)),
{
    let mut acc: u32 = 0;
    let mut i: usize = from;
    while i < to
        invariant
            from <= i <= to <= bytes@.len(),
            acc == checksum_of(bytes@.subrange(from as int, i as int)),
        decreases to - i,
    {
        proof {
            let next = bytes@.subrange(from as int, i + 1);
            assert(next.drop_last() =~= bytes@.subrange(from as int, i as int));
            assert(next.last() == bytes@[i as int]);
            lemma_add_mod(byte_sum(next.drop_last()) as int, bytes@[i as int] as int);
        }
        acc = (acc + bytes[i] as u32) % CHECKSUM_MODULUS;
        i += 1;
    }
    acc
}

proof fn lemma_add_mod(a: int, b: int)
    requires
        0 <= a,
        0 <= b,
    ensures
        ((a % 256) + b) % 256 == (a + b) % 256,
{
    assert(((a % 256) + b) % 256 == (a + b) % 256) by (nonlinear_arith)
        requires
            0 <= a,
            0 <= b,
    ;
}

} // verus!
