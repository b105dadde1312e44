//! Numbers as text, and text that may not be UTF-8.

use vstd::prelude::*;

verus! {

/// The lower-case hexadecimal digit of a number below sixteen.
pub open spec fn hex_digit(n: u64) -> u8 {
    if n < 10 {
        (48 + n) as u8
    } else {
        (87 + n) as u8
    }
}

/// The hexadecimal digit at position `k`, counted from the right.
pub open spec fn nibble(n: u64, k: u64) -> u64 {
    (n >> (4 * k) as u64) & 15
}

/// The last `width` hexadecimal digits of a number, zeros included.
pub open spec fn hex_text(n: u64, width: nat) -> Seq<u8> {
    Seq::new(width, |i: int| hex_digit(nibble(n, (width - 1 - i) as u64)))
}

/// The decimal digits of a number.
pub open spec fn decimal_text(n: nat) -> Seq<u8>
    decreases n,
{
    if n < 10 {
        seq![(48 + n) as u8]
    } else {
        decimal_text(n / 10).push((48 + n % 10) as u8)
    }
}

/// Writes the last `width` hexadecimal digits of a number.
pub fn hex(n: u64, width: u64) -> (r: Vec<u8>)
    requires
        width <= 16,
    ensures
        r@ == hex_text(n, width as nat),
{
    let mut digits: Vec<u8> = Vec::new();
    let mut k: u64 = width;
    while k > 0
        invariant
            k <= width <= 16,
            digits.len() == width - k,
            forall|i: int|
                0 <= i < digits.len() ==> #[trigger] digits@[i] == hex_digit(
                    nibble(n, (width - 1 - i) as u64),
                ),
        decreases k,
    {
        k = k - 1;
        let d: u64 = (n >> (4 * k)) & 15;
        assert(d < 16) by (bit_vector)
            requires
                d == (n >> ((4 * k) as u64)) & 15,
        ;
        if d < 10 {
            digits.push((48 + d) as u8);
        } else {
            digits.push((87 + d) as u8);
        }
    }
    assert(digits@ =~= hex_text(n, width as nat));
    digits
}

/// Writes a number in decimal.
pub fn decimal(n: u64) -> (r: Vec<u8>)
    ensures
        r@ == decimal_text(n as nat),
    decreases n,
{
    let mut digits: Vec<u8> = if n < 10 {
        Vec::new()
    } else {
        decimal(n / 10)
    };
    let ghost before = digits@;
    digits.push((48 + n % 10) as u8);
    proof {
        if n < 10 {
            assert(digits@ =~= seq![(48 + n) as u8]);
        } else {
            assert(digits@ =~= before.push((48 + n % 10) as u8));
        }
    }
    digits
}

/// Different digits stand for different numbers.
proof fn lemma_hex_digit(a: u64, b: u64)
    requires
        a < 16,
        b < 16,
        hex_digit(a) == hex_digit(b),
    ensures
        a == b,
{
}

/// Sixteen hexadecimal digits determine the number.
pub proof fn law_hex_injective(a: u64, b: u64)
    requires
        hex_text(a, 16) == hex_text(b, 16),
    ensures
        a == b,
{
    assert forall|k: u64| 0 <= k < 16 implies #[trigger] nibble(a, k) == nibble(b, k) by {
        let i: int = 15 - k;
        let x = nibble(a, k);
        let y = nibble(b, k);
        assert((16nat - 1 - i) as u64 == k);
        assert(hex_text(a, 16)[i] == hex_digit(x));
        assert(hex_text(b, 16)[i] == hex_digit(y));
        let s = (4 * k) as u64;
        assert((a >> s) & 15 < 16 && (b >> s) & 15 < 16) by (bit_vector);
        lemma_hex_digit(x, y);
    }
    assert(nibble(a, 0) == nibble(b, 0) && nibble(a, 1) == nibble(b, 1) && nibble(a, 2) == nibble(b, 2)
        && nibble(a, 3) == nibble(b, 3) && nibble(a, 4) == nibble(b, 4) && nibble(a, 5) == nibble(b, 5)
        && nibble(a, 6) == nibble(b, 6) && nibble(a, 7) == nibble(b, 7) && nibble(a, 8) == nibble(b, 8)
        && nibble(a, 9) == nibble(b, 9) && nibble(a, 10) == nibble(b, 10) && nibble(a, 11) == nibble(b, 11)
        && nibble(a, 12) == nibble(b, 12) && nibble(a, 13) == nibble(b, 13) && nibble(a, 14) == nibble(b, 14)
        && nibble(a, 15) == nibble(b, 15));
    assert(a == b) by (bit_vector)
        requires
            (a >> 0u64) & 15 == (b >> 0u64) & 15,
            (a >> 4u64) & 15 == (b >> 4u64) & 15,
            (a >> 8u64) & 15 == (b >> 8u64) & 15,
            (a >> 12u64) & 15 == (b >> 12u64) & 15,
            (a >> 16u64) & 15 == (b >> 16u64) & 15,
            (a >> 20u64) & 15 == (b >> 20u64) & 15,
            (a >> 24u64) & 15 == (b >> 24u64) & 15,
            (a >> 28u64) & 15 == (b >> 28u64) & 15,
            (a >> 32u64) & 15 == (b >> 32u64) & 15,
            (a >> 36u64) & 15 == (b >> 36u64) & 15,
            (a >> 40u64) & 15 == (b >> 40u64) & 15,
            (a >> 44u64) & 15 == (b >> 44u64) & 15,
            (a >> 48u64) & 15 == (b >> 48u64) & 15,
            (a >> 52u64) & 15 == (b >> 52u64) & 15,
            (a >> 56u64) & 15 == (b >> 56u64) & 15,
            (a >> 60u64) & 15 == (b >> 60u64) & 15,
    ;
}

/// The number that decimal digits stand for.
pub open spec fn digits_value(digits: Seq<u8>) -> int
    decreases digits.len(),
{
    if digits.len() == 0 {
        0
    } else {
        10 * digits_value(digits.drop_last()) + (digits.last() - 48)
    }
}

/// The decimal text of a number stands for the number, holds nothing but digits, and
/// begins with a zero only where the number is zero.
pub proof fn law_decimal_text(n: nat)
    ensures
        digits_value(decimal_text(n)) == n,
        decimal_text(n).len() > 0,
        forall|i: int| 0 <= i < decimal_text(n).len() ==> 48 <= #[trigger] decimal_text(n)[i] <= 57,
        decimal_text(n)[0] == 48 <==> n == 0,
        n == 0 ==> decimal_text(n).len() == 1,
    decreases n,
{
    let d = decimal_text(n);
    if n < 10 {
        assert(d.drop_last() =~= Seq::<u8>::empty());
        assert(digits_value(d.drop_last()) == 0);
    } else {
        law_decimal_text(n / 10);
        assert(d.drop_last() =~= decimal_text(n / 10));
    }
}

/// Hexadecimal text has as many digits as asked for, each of them one of the sixteen.
pub proof fn law_hex_text(n: u64, width: nat, i: int)
    requires
        0 <= i < width <= 16,
    ensures
        hex_text(n, width).len() == width,
        48 <= hex_text(n, width)[i] <= 57 || 97 <= hex_text(n, width)[i] <= 102,
{
    let k = (width - 1 - i) as u64;
    let s = (4 * k) as u64;
    assert((n >> s) & 15 < 16) by (bit_vector);
    assert(hex_text(n, width)[i] == hex_digit(nibble(n, k)));
}

/// `std::str::from_utf8`: whether the bytes are UTF-8.
#[verifier::external_body]
pub(crate) fn is_utf8(b: &[u8]) -> (r: bool)
    ensures
        r == vstd::utf8::valid_utf8(b@),
{
    std::str::from_utf8(b).is_ok()
}

/// The bytes with everything that is not UTF-8 replaced.
pub uninterp spec fn utf8_lossy(b: Seq<u8>) -> Seq<u8>;

/// `String::from_utf8_lossy`: bytes that are UTF-8 stay as they are; what comes of
/// others is named, not described.
#[verifier::external_body]
pub(crate) fn to_utf8_lossy(b: &[u8]) -> (r: Vec<u8>)
    ensures
        r@ == utf8_lossy(b@),
        vstd::utf8::valid_utf8(b@) ==> r@ == b@,
{
    String::from_utf8_lossy(b).into_owned().into_bytes()
}

} // verus!
