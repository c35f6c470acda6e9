//! The CRC-32 (IEEE 802.3) checksum that guards the footers.

use vstd::prelude::*;

verus! {

/// One bit of the reflected CRC-32 division.
pub open spec fn crc32_bit(c: u32) -> u32 {
    if c & 1 == 1 {
        (c >> 1) ^ 0xEDB88320u32
    } else {
        c >> 1
    }
}

/// Eight bits of the division.
pub open spec fn crc32_fold(c: u32) -> u32 {
    crc32_bit(crc32_bit(crc32_bit(crc32_bit(crc32_bit(crc32_bit(crc32_bit(crc32_bit(c))))))))
}

/// The register after `data`, which starts with all bits set.
pub open spec fn crc32_register(data: Seq<u8>) -> u32
    decreases data.len(),
{
    if data.len() == 0 {
        0xFFFF_FFFFu32
    } else {
        crc32_fold(crc32_register(data.drop_last()) ^ (data.last() as u32))
    }
}

/// The CRC-32 checksum of `data`: the register after it, inverted.
pub open spec fn crc32(data: Seq<u8>) -> u32 {
    !crc32_register(data)
}

/// `crc32fast::hash` computes the CRC-32 (IEEE) checksum of the whole buffer.
pub assume_specification[ crc32fast::hash ](buf: &[u8]) -> (checksum: u32)
    ensures
        checksum == crc32(buf@),
;

proof fn lemma_fold_injective(a: u32, b: u32)
    requires
        crc32_fold(a) == crc32_fold(b),
    ensures
        a == b,
{
    assert forall|x: u32, y: u32| #[trigger] crc32_bit(x) == #[trigger] crc32_bit(y) implies x
        == y by {
        assert(crc32_bit(x) == crc32_bit(y) ==> x == y) by (bit_vector);
    }
}

/// A value below 2^24 that meets the register after a fold could have met it,
/// one byte further up, before the fold.
proof fn lemma_fold_absorbs(c: u32, v: u32)
    requires
        v < 0x0100_0000,
    ensures
        crc32_fold(c) ^ v == crc32_fold(c ^ (v << 8)),
{
    assert(v < 0x0100_0000 ==> crc32_fold(c) ^ v == crc32_fold(c ^ (v << 8))) by (bit_vector);
}

/// Four bytes as one little-endian word.
spec fn word(w: Seq<u8>) -> u32 {
    (w[0] as u32) ^ ((w[1] as u32) << 8) ^ (((w[2] as u32) << 8) << 8) ^ ((((w[3] as u32) << 8)
        << 8) << 8)
}

/// Four bytes enter the register as one word, followed by four folds.
proof fn lemma_register_of_word(p: Seq<u8>, w: Seq<u8>)
    requires
        w.len() == 4,
    ensures
        crc32_register(p + w) == crc32_fold(
            crc32_fold(crc32_fold(crc32_fold(crc32_register(p) ^ word(w)))),
        ),
{
    let r = crc32_register(p);
    let (b0, b1, b2, b3) = (w[0] as u32, w[1] as u32, w[2] as u32, w[3] as u32);
    assert((p + w).drop_last() =~= p + w.take(3));
    assert((p + w.take(3)).drop_last() =~= p + w.take(2));
    assert((p + w.take(2)).drop_last() =~= p + w.take(1));
    assert((p + w.take(1)).drop_last() =~= p);
    assert(forall|b: u32|
        b < 256 ==> #[trigger] (b << 8) < 0x0001_0000 && ((b << 8) << 8) < 0x0100_0000)
        by (bit_vector);
    let x1 = r ^ b0;
    lemma_fold_absorbs(x1, b1);
    let x2 = x1 ^ (b1 << 8);
    lemma_fold_absorbs(crc32_fold(x2), b2);
    lemma_fold_absorbs(x2, b2 << 8);
    let x3 = x2 ^ ((b2 << 8) << 8);
    lemma_fold_absorbs(crc32_fold(crc32_fold(x3)), b3);
    lemma_fold_absorbs(crc32_fold(x3), b3 << 8);
    lemma_fold_absorbs(x3, (b3 << 8) << 8);
    let x4 = x3 ^ (((b3 << 8) << 8) << 8);
    assert((((r ^ b0) ^ (b1 << 8)) ^ ((b2 << 8) << 8)) ^ (((b3 << 8) << 8) << 8) == r ^ (b0 ^ (b1
        << 8) ^ ((b2 << 8) << 8) ^ (((b3 << 8) << 8) << 8))) by (bit_vector);
    assert(crc32_register(p + w.take(1)) == crc32_fold(x1));
    assert(crc32_register(p + w.take(2)) == crc32_fold(crc32_fold(x2)));
    assert(crc32_register(p + w.take(3)) == crc32_fold(crc32_fold(crc32_fold(x3))));
}

/// Different words leave different registers.
proof fn lemma_register_separates_words(p: Seq<u8>, v: Seq<u8>, w: Seq<u8>)
    requires
        v.len() == 4,
        w.len() == 4,
        v != w,
    ensures
        crc32_register(p + v) != crc32_register(p + w),
{
    if crc32_register(p + v) == crc32_register(p + w) {
        lemma_register_of_word(p, v);
        lemma_register_of_word(p, w);
        let (x, y) = (crc32_register(p) ^ word(v), crc32_register(p) ^ word(w));
        lemma_fold_injective(
            crc32_fold(crc32_fold(crc32_fold(x))),
            crc32_fold(crc32_fold(crc32_fold(y))),
        );
        lemma_fold_injective(crc32_fold(crc32_fold(x)), crc32_fold(crc32_fold(y)));
        lemma_fold_injective(crc32_fold(x), crc32_fold(y));
        lemma_fold_injective(x, y);
        let r = crc32_register(p);
        let (v0, v1, v2, v3) = (v[0], v[1], v[2], v[3]);
        let (w0, w1, w2, w3) = (w[0], w[1], w[2], w[3]);
        assert(r ^ ((v0 as u32) ^ ((v1 as u32) << 8) ^ (((v2 as u32) << 8) << 8) ^ ((((v3 as u32)
            << 8) << 8) << 8)) == r ^ ((w0 as u32) ^ ((w1 as u32) << 8) ^ (((w2 as u32) << 8) << 8)
            ^ ((((w3 as u32) << 8) << 8) << 8)) ==> v0 == w0 && v1 == w1 && v2 == w2 && v3 == w3)
            by (bit_vector);
        assert(v =~= w);
    }
}

/// A difference in the register survives any common suffix.
proof fn lemma_register_keeps_difference(a: Seq<u8>, b: Seq<u8>, suffix: Seq<u8>)
    requires
        crc32_register(a) != crc32_register(b),
    ensures
        crc32_register(a + suffix) != crc32_register(b + suffix),
    decreases suffix.len(),
{
    if suffix.len() == 0 {
        assert(a + suffix =~= a);
        assert(b + suffix =~= b);
    } else {
        lemma_register_keeps_difference(a, b, suffix.drop_last());
        assert((a + suffix).drop_last() =~= a + suffix.drop_last());
        assert((b + suffix).drop_last() =~= b + suffix.drop_last());
        let (r, s) = (
            crc32_register(a + suffix.drop_last()),
            crc32_register(b + suffix.drop_last()),
        );
        let last = suffix.last() as u32;
        if crc32_fold(r ^ last) == crc32_fold(s ^ last) {
            lemma_fold_injective(r ^ last, s ^ last);
            assert(r ^ last == s ^ last ==> r == s) by (bit_vector);
        }
    }
}

/// Two byte sequences of one length that differ only inside four consecutive
/// bytes have different checksums.
pub proof fn law_crc32_detects_changes_in_four_bytes(a: Seq<u8>, b: Seq<u8>, start: int)
    requires
        a.len() == b.len(),
        0 <= start,
        start + 4 <= a.len(),
        forall|i: int|
            0 <= i < a.len() && !(start <= i < start + 4) ==> #[trigger] a[i] == #[trigger] b[i],
        a != b,
    ensures
        crc32(a) != crc32(b),
{
    let n = a.len() as int;
    let prefix = a.subrange(0, start);
    let suffix = a.subrange(start + 4, n);
    let v = a.subrange(start, start + 4);
    let w = b.subrange(start, start + 4);
    assert(prefix =~= b.subrange(0, start));
    assert(suffix =~= b.subrange(start + 4, n));
    assert(a =~= prefix + v + suffix);
    assert(b =~= prefix + w + suffix);
    lemma_register_separates_words(prefix, v, w);
    lemma_register_keeps_difference(prefix + v, prefix + w, suffix);
    let (r, s) = (crc32_register(a), crc32_register(b));
    assert(r != s ==> !r != !s) by (bit_vector);
}

} // verus!
