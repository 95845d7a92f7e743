//! Decimal-digit arithmetic shared by the sequence-number wire form and the
//! fixed-point amounts: powers of ten, digit counts, and digit strings.
use vstd::prelude::*;

verus! {

/// Ten to the `k`.
pub open spec fn spec_pow10(k: nat) -> nat
    decreases k,
{
    if k == 0 {
        1
    } else {
        10 * spec_pow10((k - 1) as nat)
    }
}

/// Every `u64` is below ten to the twentieth.
pub proof fn lemma_u64_below_pow10_20()
    ensures
        u64::MAX < spec_pow10(20),
{
    assert(spec_pow10(20) == 100000000000000000000) by {
        reveal_with_fuel(spec_pow10, 21);
    }
}

/// Every `u128` is below ten to the thirty-ninth.
pub proof fn lemma_u128_below_pow10_39()
    ensures
        u128::MAX < spec_pow10(39),
{
    assert(spec_pow10(39) == 1000000000000000000000000000000000000000) by {
        reveal_with_fuel(spec_pow10, 40);
    }
}

/// Powers of ten multiply by adding exponents.
pub proof fn lemma_pow10_adds(a: nat, b: nat)
    ensures
        spec_pow10(a) * spec_pow10(b) == spec_pow10(a + b),
    decreases a,
{
    if a == 0 {
        assert(1 * spec_pow10(b) == spec_pow10(b)) by (nonlinear_arith);
    } else {
        lemma_pow10_adds((a - 1) as nat, b);
        assert((10 * spec_pow10((a - 1) as nat)) * spec_pow10(b) == 10 * (spec_pow10(
            (a - 1) as nat,
        ) * spec_pow10(b))) by (nonlinear_arith);
    }
}

/// Powers of ten are positive.
pub proof fn lemma_pow10_pos(k: nat)
    ensures
        spec_pow10(k) >= 1,
    decreases k,
{
    if k > 0 {
        lemma_pow10_pos((k - 1) as nat);
    }
}

/// Powers of ten grow with the exponent.
pub proof fn lemma_pow10_increases(a: nat, b: nat)
    requires
        a <= b,
    ensures
        spec_pow10(a) <= spec_pow10(b),
    decreases b,
{
    if a < b {
        lemma_pow10_increases(a, (b - 1) as nat);
        lemma_pow10_pos((b - 1) as nat);
    }
}

/// How many decimal digits `n` has; one for zero.
pub open spec fn spec_num_digits(n: nat) -> nat
    decreases n,
{
    if n < 10 {
        1
    } else {
        1 + spec_num_digits(n / 10)
    }
}

/// `n` is below ten to its digit count.
pub proof fn lemma_num_digits_upper(n: nat)
    ensures
        n < spec_pow10(spec_num_digits(n)),
    decreases n,
{
    if n < 10 {
        assert(spec_pow10(1) == 10) by {
            reveal_with_fuel(spec_pow10, 2);
        }
    } else {
        lemma_num_digits_upper(n / 10);
        let d = spec_num_digits(n / 10);
        assert(n / 10 + 1 <= spec_pow10(d));
        assert(n < 10 * (n / 10 + 1));
        assert(10 * (n / 10 + 1) <= 10 * spec_pow10(d)) by (nonlinear_arith)
            requires
                n / 10 + 1 <= spec_pow10(d),
        ;
    }
}

/// `n < 10^k` means `n` has at most `k` digits.
pub proof fn lemma_num_digits_le(n: nat, k: nat)
    requires
        k >= 1,
        n < spec_pow10(k),
    ensures
        spec_num_digits(n) <= k,
    decreases k,
{
    if n < 10 {
    } else {
        if k == 1 {
            assert(spec_pow10(1) == 10) by {
                reveal_with_fuel(spec_pow10, 2);
            }
        }
        lemma_num_digits_le(n / 10, (k - 1) as nat);
    }
}

/// The decimal digits of `n` as ASCII bytes, most significant first.
pub open spec fn spec_dec_digits(n: nat) -> Seq<u8>
    decreases n,
{
    if n < 10 {
        seq![(48 + n) as u8]
    } else {
        spec_dec_digits(n / 10) + seq![(48 + n % 10) as u8]
    }
}

/// The digit string is as long as the digit count.
pub proof fn lemma_dec_digits_len(n: nat)
    ensures
        spec_dec_digits(n).len() == spec_num_digits(n),
    decreases n,
{
    if n >= 10 {
        lemma_dec_digits_len(n / 10);
    }
}

/// Every byte of `spec_dec_digits` is an ASCII digit.
pub proof fn lemma_dec_digits_ok(n: nat)
    ensures
        forall|i: int|
            0 <= i < spec_dec_digits(n).len() ==> 48 <= #[trigger] spec_dec_digits(n)[i] <= 57,
    decreases n,
{
    if n < 10 {
        assert(spec_dec_digits(n)[0] == (48 + n) as u8);
    } else {
        lemma_dec_digits_ok(n / 10);
        let hi = spec_dec_digits(n / 10);
        let digits = spec_dec_digits(n);
        assert forall|i: int| 0 <= i < digits.len() implies 48 <= #[trigger] digits[i] <= 57 by {
            if i < hi.len() {
                assert(digits[i] == hi[i]);
            } else {
                assert(digits[i] == (48 + n % 10) as u8);
            }
        }
    }
}

/// Append the decimal digits of `n` to `v`.
pub fn push_dec_digits(v: &mut Vec<u8>, n: u64)
    ensures
        final(v)@ == old(v)@ + spec_dec_digits(n as nat),
    decreases n,
{
    if n < 10 {
        v.push(48 + (n as u8));
        proof {
            assert(final(v)@ =~= old(v)@ + spec_dec_digits(n as nat));
        }
    } else {
        push_dec_digits(v, n / 10);
        v.push(48 + ((n % 10) as u8));
        proof {
            assert(final(v)@ =~= old(v)@ + spec_dec_digits(n as nat));
        }
    }
}

/// The digit character for one digit value.
pub open spec fn spec_digit_char(d: nat) -> char
    recommends
        d < 10,
{
    if d == 0 {
        '0'
    } else if d == 1 {
        '1'
    } else if d == 2 {
        '2'
    } else if d == 3 {
        '3'
    } else if d == 4 {
        '4'
    } else if d == 5 {
        '5'
    } else if d == 6 {
        '6'
    } else if d == 7 {
        '7'
    } else if d == 8 {
        '8'
    } else {
        '9'
    }
}

/// The decimal digits of `n` as characters, most significant first.
pub open spec fn spec_dec_chars(n: nat) -> Seq<char>
    decreases n,
{
    if n < 10 {
        seq![spec_digit_char(n)]
    } else {
        spec_dec_chars(n / 10) + seq![spec_digit_char(n % 10)]
    }
}

/// The character string is as long as the digit count.
pub proof fn lemma_dec_chars_len(n: nat)
    ensures
        spec_dec_chars(n).len() == spec_num_digits(n),
    decreases n,
{
    if n >= 10 {
        lemma_dec_chars_len(n / 10);
    }
}

/// Append one digit character to `s`.
pub fn push_digit_char(s: &mut String, d: u64)
    requires
        d < 10,
    ensures
        final(s)@ == old(s)@ + seq![spec_digit_char(d as nat)],
{
    if d == 0 {
        s.append("0");
        proof {
            reveal_strlit("0");
            assert(final(s)@ =~= old(s)@ + seq![spec_digit_char(d as nat)]);
        }
    } else if d == 1 {
        s.append("1");
        proof {
            reveal_strlit("1");
            assert(final(s)@ =~= old(s)@ + seq![spec_digit_char(d as nat)]);
        }
    } else if d == 2 {
        s.append("2");
        proof {
            reveal_strlit("2");
            assert(final(s)@ =~= old(s)@ + seq![spec_digit_char(d as nat)]);
        }
    } else if d == 3 {
        s.append("3");
        proof {
            reveal_strlit("3");
            assert(final(s)@ =~= old(s)@ + seq![spec_digit_char(d as nat)]);
        }
    } else if d == 4 {
        s.append("4");
        proof {
            reveal_strlit("4");
            assert(final(s)@ =~= old(s)@ + seq![spec_digit_char(d as nat)]);
        }
    } else if d == 5 {
        s.append("5");
        proof {
            reveal_strlit("5");
            assert(final(s)@ =~= old(s)@ + seq![spec_digit_char(d as nat)]);
        }
    } else if d == 6 {
        s.append("6");
        proof {
            reveal_strlit("6");
            assert(final(s)@ =~= old(s)@ + seq![spec_digit_char(d as nat)]);
        }
    } else if d == 7 {
        s.append("7");
        proof {
            reveal_strlit("7");
            assert(final(s)@ =~= old(s)@ + seq![spec_digit_char(d as nat)]);
        }
    } else if d == 8 {
        s.append("8");
        proof {
            reveal_strlit("8");
            assert(final(s)@ =~= old(s)@ + seq![spec_digit_char(d as nat)]);
        }
    } else {
        s.append("9");
        proof {
            reveal_strlit("9");
            assert(final(s)@ =~= old(s)@ + seq![spec_digit_char(d as nat)]);
        }
    }
}

/// Append the decimal digits of `n` to `s` as characters.
pub fn push_dec_chars_u64(s: &mut String, n: u64)
    ensures
        final(s)@ == old(s)@ + spec_dec_chars(n as nat),
    decreases n,
{
    if n < 10 {
        push_digit_char(s, n);
        proof {
            assert(final(s)@ =~= old(s)@ + spec_dec_chars(n as nat));
        }
    } else {
        push_dec_chars_u64(s, n / 10);
        push_digit_char(s, n % 10);
        proof {
            assert(final(s)@ =~= old(s)@ + spec_dec_chars(n as nat));
        }
    }
}

/// Append the decimal digits of `n` to `s` as characters.
pub fn push_dec_chars_u128(s: &mut String, n: u128)
    ensures
        final(s)@ == old(s)@ + spec_dec_chars(n as nat),
    decreases n,
{
    if n < 10 {
        push_digit_char(s, n as u64);
        proof {
            assert(final(s)@ =~= old(s)@ + spec_dec_chars(n as nat));
        }
    } else {
        push_dec_chars_u128(s, n / 10);
        push_digit_char(s, (n % 10) as u64);
        proof {
            assert(final(s)@ =~= old(s)@ + spec_dec_chars(n as nat));
        }
    }
}

/// The number of decimal digits of `n`.
#[verifier::loop_isolation(false)]
pub fn num_digits_u64(n: u64) -> (r: usize)
    ensures
        r == spec_num_digits(n as nat),
        1 <= r <= 20,
{
    proof {
        lemma_num_digits_le_20(n as nat);
    }
    let mut r: usize = 1;
    let mut m: u64 = n;
    while m >= 10
        invariant
            1 <= r,
            spec_num_digits(n as nat) == (r - 1) + spec_num_digits(m as nat),
        decreases m,
    {
        proof {
            assert(spec_num_digits((m / 10) as nat) >= 1);
        }
        m = m / 10;
        r += 1;
    }
    r
}

/// A `u64` has at most twenty digits.
pub proof fn lemma_num_digits_le_20(n: nat)
    requires
        n <= u64::MAX,
    ensures
        spec_num_digits(n) <= 20,
{
    lemma_u64_below_pow10_20();
    lemma_num_digits_le(n, 20);
}

/// A `u128` has at most thirty-nine digits.
pub proof fn lemma_num_digits_le_39(n: nat)
    requires
        n <= u128::MAX,
    ensures
        spec_num_digits(n) <= 39,
{
    lemma_u128_below_pow10_39();
    lemma_num_digits_le(n, 39);
}

/// The number of decimal digits of `n`.
#[verifier::loop_isolation(false)]
pub fn num_digits_u128(n: u128) -> (r: usize)
    ensures
        r == spec_num_digits(n as nat),
        1 <= r <= 39,
{
    proof {
        lemma_num_digits_le_39(n as nat);
    }
    let mut r: usize = 1;
    let mut m: u128 = n;
    while m >= 10
        invariant
            1 <= r,
            spec_num_digits(n as nat) == (r - 1) + spec_num_digits(m as nat),
        decreases m,
    {
        proof {
            assert(spec_num_digits((m / 10) as nat) >= 1);
        }
        m = m / 10;
        r += 1;
    }
    r
}

/// Ten to the `k` as a `u64`; `k` must stay within a `u64`'s range.
#[verifier::loop_isolation(false)]
pub fn pow10_u64(k: usize) -> (r: u64)
    requires
        k <= 19,
    ensures
        r == spec_pow10(k as nat),
{
    proof {
        assert(spec_pow10(0) == 1 && spec_pow10(1) == 10 && spec_pow10(2) == 100 && spec_pow10(3)
            == 1000 && spec_pow10(4) == 10000 && spec_pow10(5) == 100000 && spec_pow10(6) == 1000000
            && spec_pow10(7) == 10000000 && spec_pow10(8) == 100000000 && spec_pow10(9) == 1000000000
            && spec_pow10(10) == 10000000000 && spec_pow10(11) == 100000000000 && spec_pow10(12)
            == 1000000000000 && spec_pow10(13) == 10000000000000 && spec_pow10(14) == 100000000000000
            && spec_pow10(15) == 1000000000000000 && spec_pow10(16) == 10000000000000000
            && spec_pow10(17) == 100000000000000000 && spec_pow10(18) == 1000000000000000000
            && spec_pow10(19) == 10000000000000000000) by {
            reveal_with_fuel(spec_pow10, 21);
        }
    }
    let mut r: u64 = 1;
    let mut i: usize = 0;
    while i < k
        invariant
            i <= k,
            r == spec_pow10(i as nat),
        decreases k - i,
    {
        proof {
            lemma_pow10_increases((i + 1) as nat, 19);
            assert(spec_pow10((i + 1) as nat) == 10 * spec_pow10(i as nat));
        }
        r = r * 10;
        i += 1;
    }
    r
}

/// Ten to the `k` as a `u128`; `k` must stay within a `u128`'s range.
#[verifier::loop_isolation(false)]
pub fn pow10_u128(k: usize) -> (r: u128)
    requires
        k <= 38,
    ensures
        r == spec_pow10(k as nat),
{
    proof {
        lemma_u128_below_pow10_39();
        assert(spec_pow10(38) == 100000000000000000000000000000000000000) by {
            reveal_with_fuel(spec_pow10, 40);
        }
    }
    let mut r: u128 = 1;
    let mut i: usize = 0;
    while i < k
        invariant
            i <= k,
            r == spec_pow10(i as nat),
        decreases k - i,
    {
        proof {
            lemma_pow10_increases((i + 1) as nat, 38);
            assert(spec_pow10((i + 1) as nat) == 10 * spec_pow10(i as nat));
        }
        r = r * 10;
        i += 1;
    }
    r
}

} // verus!
