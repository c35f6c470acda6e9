//! Little-endian integers as byte sequences.

use vstd::arithmetic::div_mod::lemma_div_denominator;
use vstd::arithmetic::power::{lemma_pow_positive, pow};
use vstd::prelude::*;

verus! {

/// The `n` low bytes of `x`, least significant byte first.
pub open spec fn le_bytes(x: nat, n: nat) -> Seq<u8>
    decreases n,
{
    if n == 0 {
        Seq::empty()
    } else {
        seq![(x % 256) as u8] + le_bytes(x / 256, (n - 1) as nat)
    }
}

/// The number that `s` encodes, least significant byte first.
pub open spec fn le_value(s: Seq<u8>) -> nat
    decreases s.len(),
{
    if s.len() == 0 {
        0
    } else {
        s[0] as nat + 256 * le_value(s.drop_first())
    }
}

/// `n` bytes encode to a sequence of length `n`.
pub broadcast proof fn lemma_le_bytes_len(x: nat, n: nat)
    ensures
        #[trigger] le_bytes(x, n).len() == n,
    decreases n,
{
    if n > 0 {
        lemma_le_bytes_len(x / 256, (n - 1) as nat);
    }
}

/// What `n` bytes encode is below `256^n`.
pub proof fn lemma_le_value_bound(s: Seq<u8>)
    ensures
        le_value(s) < pow(256, s.len()),
    decreases s.len(),
{
    reveal(pow);
    if s.len() > 0 {
        lemma_le_value_bound(s.drop_first());
    }
}

/// Decoding the encoding of a number gives the number back, if it fits.
pub proof fn lemma_le_value_of_bytes(x: nat, n: nat)
    requires
        x < pow(256, n),
    ensures
        le_value(le_bytes(x, n)) == x,
    decreases n,
{
    reveal(pow);
    if n > 0 {
        let rest = (n - 1) as nat;
        assert(pow(256, n) == 256 * pow(256, rest));
        assert(x / 256 < pow(256, rest));
        lemma_le_value_of_bytes(x / 256, rest);
        assert(le_bytes(x, n).drop_first() =~= le_bytes(x / 256, rest));
    }
}

/// Encoding what a byte sequence decodes to gives the sequence back.
pub proof fn lemma_le_bytes_of_value(s: Seq<u8>)
    ensures
        le_bytes(le_value(s), s.len()) == s,
    decreases s.len(),
{
    if s.len() > 0 {
        lemma_le_bytes_of_value(s.drop_first());
        assert(le_value(s) % 256 == s[0]);
        assert(le_value(s) / 256 == le_value(s.drop_first()));
        assert(seq![s[0]] + s.drop_first() =~= s);
    } else {
        assert(s =~= Seq::empty());
    }
}

/// A field of `n` bytes, read as a number and encoded again.
pub proof fn lemma_le_field(bytes: Seq<u8>, offset: int, n: nat)
    requires
        0 <= offset,
        offset + n <= bytes.len(),
    ensures
        le_value(bytes.subrange(offset, offset + n)) < pow(256, n),
        le_bytes(le_value(bytes.subrange(offset, offset + n)), n) == bytes.subrange(
            offset,
            offset + n,
        ),
{
    lemma_le_value_bound(bytes.subrange(offset, offset + n));
    lemma_le_bytes_of_value(bytes.subrange(offset, offset + n));
}

/// The bounds of the unsigned integer types as powers of 256.
pub proof fn lemma_pow_256()
    ensures
        pow(256, 2) == 0x1_0000,
        pow(256, 4) == 0x1_0000_0000,
        pow(256, 8) == 0x1_0000_0000_0000_0000,
{
    reveal_with_fuel(pow, 9);
}

/// Appends the `n` low bytes of `value` to `out`, least significant byte first.
pub fn push_le(out: &mut Vec<u8>, value: u64, n: usize)
    ensures
        final(out)@ == old(out)@ + le_bytes(value as nat, n as nat),
{
    let mut rest: u64 = value;
    let mut i: usize = 0;
    proof {
        assert(old(out)@ + le_bytes(value as nat, n as nat) =~= out@ + le_bytes(
            value as nat,
            n as nat,
        ));
    }
    while i < n
        invariant
            i <= n,
            old(out)@ + le_bytes(value as nat, n as nat) == out@ + le_bytes(
                rest as nat,
                (n - i) as nat,
            ),
        decreases n - i,
    {
        let ghost before = out@;
        out.push((rest % 256) as u8);
        proof {
            assert(before + le_bytes(rest as nat, (n - i) as nat) =~= out@ + le_bytes(
                (rest / 256) as nat,
                (n - i - 1) as nat,
            ));
        }
        rest = rest / 256;
        i += 1;
    }
    assert(out@ + le_bytes(rest as nat, 0) =~= out@);
}

/// Reads the `n` bytes of `bytes` that start at `offset`, least significant
/// byte first.
pub fn load_le(bytes: &[u8], offset: usize, n: usize) -> (value: u64)
    requires
        n <= 8,
        offset + n <= bytes@.len(),
    ensures
        value == le_value(bytes@.subrange(offset as int, offset + n)),
        value < pow(256, n as nat),
{
    let len = bytes.len();
    let mut value: u64 = 0;
    let mut i: usize = n;
    assert(bytes@.subrange(offset + n, offset + n).len() == 0);
    while i > 0
        invariant
            i <= n <= 8,
            offset + n <= bytes@.len(),
            len == bytes@.len(),
            value == le_value(bytes@.subrange(offset + i, offset + n)),
        decreases i,
    {
        let ghost tail = bytes@.subrange(offset + i, offset + n);
        let ghost longer = bytes@.subrange(offset + i - 1, offset + n);
        proof {
            assert(longer.drop_first() =~= tail);
            lemma_le_value_bound(longer);
            lemma_pow_256();
            vstd::arithmetic::power::lemma_pow_increases(256, longer.len(), 8);
        }
        i -= 1;
        value = value * 256 + bytes[offset + i] as u64;
    }
    proof {
        lemma_le_value_bound(bytes@.subrange(offset as int, offset + n));
    }
    value
}

/// The bytes of a number are its digits to base 256, the lowest first.
pub proof fn law_le_bytes_are_the_digits(x: nat, n: nat, i: nat)
    requires
        i < n,
    ensures
        le_bytes(x, n).len() == n,
        le_bytes(x, n)[i as int] == (x as int / pow(256, i)) % 256,
    decreases n,
{
    reveal(pow);
    lemma_le_bytes_len(x, n);
    lemma_le_bytes_len(x / 256, (n - 1) as nat);
    if i > 0 {
        law_le_bytes_are_the_digits(x / 256, (n - 1) as nat, (i - 1) as nat);
        lemma_pow_positive(256, (i - 1) as nat);
        lemma_div_denominator(x as int, 256, pow(256, (i - 1) as nat));
    }
}

/// The number that bytes stand for has these bytes as its digits to base 256,
/// the lowest first, and no others.
pub proof fn law_le_value_has_the_digits(s: Seq<u8>, i: nat)
    requires
        i < s.len(),
    ensures
        le_value(s) < pow(256, s.len()),
        (le_value(s) as int / pow(256, i)) % 256 == s[i as int],
    decreases s.len(),
{
    reveal(pow);
    lemma_le_value_bound(s);
    if i > 0 {
        law_le_value_has_the_digits(s.drop_first(), (i - 1) as nat);
        lemma_pow_positive(256, (i - 1) as nat);
        lemma_div_denominator(le_value(s) as int, 256, pow(256, (i - 1) as nat));
        assert(le_value(s) as int / 256 == le_value(s.drop_first()));
    }
}

} // verus!
