//! Text of numbers in messages.

use vstd::arithmetic::div_mod::lemma_div_denominator;
use vstd::arithmetic::power::{lemma_pow_positive, pow};
use vstd::prelude::*;
use vstd::string::{StrSliceExecFns, StringExecFns};

verus! {

/// The upper-case hexadecimal digit of a number below 16.
pub open spec fn hex_digit(d: nat) -> char {
    "0123456789ABCDEF"@[d as int]
}

/// The `n` low hexadecimal digits of `x`, most significant digit first.
pub open spec fn hex_digits(x: nat, n: nat) -> Seq<char>
    decreases n,
{
    if n == 0 {
        Seq::empty()
    } else {
        hex_digits(x / 16, (n - 1) as nat).push(hex_digit(x % 16))
    }
}

/// `0x` and eight upper-case hexadecimal digits.
pub open spec fn hex_text(x: u32) -> Seq<char> {
    "0x"@ + hex_digits(x as nat, 8)
}

fn push_hex_digits(out: &mut String, x: u32, n: u32)
    ensures
        final(out)@ == old(out)@ + hex_digits(x as nat, n as nat),
    decreases n,
{
    if n > 0 {
        push_hex_digits(out, x / 16, n - 1);
        let d: usize = (x % 16) as usize;
        proof {
            reveal_strlit("0123456789ABCDEF");
        }
        let digit = "0123456789ABCDEF".substring_char(d, d + 1);
        out.append(digit);
        assert(digit@ =~= seq![hex_digit((x % 16) as nat)]);
    }
    assert(out@ =~= old(out)@ + hex_digits(x as nat, n as nat));
}

/// Appends `0x` and the eight upper-case hexadecimal digits of `x`.
pub fn push_hex(out: &mut String, x: u32)
    ensures
        final(out)@ == old(out)@ + hex_text(x),
{
    out.append("0x");
    push_hex_digits(out, x, 8);
    assert(out@ =~= old(out)@ + hex_text(x));
}

proof fn lemma_hex_digits(x: nat, n: nat, i: nat)
    requires
        i < n,
    ensures
        hex_digits(x, n).len() == n,
        hex_digits(x, n)[i as int] == hex_digit(
            ((x as int / pow(16, (n - 1 - i) as nat)) % 16) as nat,
        ),
    decreases n,
{
    reveal(pow);
    reveal_with_fuel(hex_digits, 2);
    let rest = (n - 1) as nat;
    if i < rest {
        lemma_hex_digits(x / 16, rest, i);
        lemma_pow_positive(16, (rest - 1 - i) as nat);
        lemma_div_denominator(x as int, 16, pow(16, (rest - 1 - i) as nat));
    } else if rest > 0 {
        lemma_hex_digits(x / 16, rest, 0);
    }
}

/// The text of a number is `0x` and its eight digits to base 16, the highest
/// first, with `A` to `F` for ten to fifteen.
pub proof fn law_hex_text_shows_the_digits(x: u32, i: nat)
    requires
        i < 8,
    ensures
        hex_text(x).len() == 10,
        hex_text(x)[0] == '0',
        hex_text(x)[1] == 'x',
        ({
            let digit = (x as int / pow(16, (7 - i) as nat)) % 16;
            hex_text(x)[i as int + 2] as int == if digit < 10 {
                '0' as int + digit
            } else {
                'A' as int + digit - 10
            }
        }),
{
    reveal_strlit("0x");
    reveal_strlit("0123456789ABCDEF");
    lemma_hex_digits(x as nat, 8, i);
}

} // verus!
