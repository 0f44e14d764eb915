//! Human-readable byte sizes. A size is shown in the largest binary unit
//! (KB, MB, GB) that it reaches, with a fixed number of decimals; below one
//! kilobyte it is shown as a plain count of bytes.
//!
//! The decimal digits are those of the exact quotient rounded to the nearest
//! value, ties to even. For the gigabyte unit the byte count is first taken
//! to the nearest double-precision value, as the division is carried out in
//! double precision; below 2^53 bytes that value is the count itself.

use vstd::prelude::*;
use crate::text::{char_of_digit, decimal, digit_char, push_char, push_decimal};

verus! {

/// 2 to the power `k`.
pub open spec fn exp2(k: nat) -> nat
    decreases k,
{
    if k == 0 { 1 } else { 2 * exp2((k - 1) as nat) }
}

/// 10 to the power `k`.
pub open spec fn exp10(k: nat) -> nat
    decreases k,
{
    if k == 0 { 1 } else { 10 * exp10((k - 1) as nat) }
}

/// Number of binary digits of `n` (0 for 0).
pub open spec fn bit_len(n: nat) -> nat
    decreases n,
{
    if n == 0 { 0 } else { 1 + bit_len(n / 2) }
}

/// `num / den` rounded to the nearest integer, ties to the even one.
pub open spec fn round_div_even(num: nat, den: nat) -> nat
    recommends
        den > 0,
{
    let q = num / den;
    let r = num % den;
    if 2 * r > den || (2 * r == den && q % 2 == 1) { q + 1 } else { q }
}

/// The value of the double-precision number nearest to `n` (53 significant
/// bits, ties to even), which is what `n as f64` holds.
pub open spec fn nearest_double(n: nat) -> nat {
    if n < exp2(53) {
        n
    } else {
        let s = (bit_len(n) - 53) as nat;
        round_div_even(n, exp2(s)) * exp2(s)
    }
}

/// The low `places` decimal digits of `v`, zero-padded.
pub open spec fn pad_digits(v: nat, places: nat) -> Seq<char>
    decreases places,
{
    if places == 0 {
        Seq::empty()
    } else {
        pad_digits(v / 10, (places - 1) as nat).push(digit_char(v % 10))
    }
}

/// `num / den` written with `places` decimals, rounded ties to even.
pub open spec fn fixed_point(num: nat, den: nat, places: nat) -> Seq<char> {
    let q = round_div_even(num * exp10(places), den);
    decimal(q / exp10(places)) + seq!['.'] + pad_digits(q % exp10(places), places)
}

pub open spec fn unit_suffix(u: char) -> Seq<char> {
    seq![' ', u, 'B']
}

proof fn lemma_exp2_pos(k: nat)
    ensures
        exp2(k) >= 1,
    decreases k,
{
    if k > 0 {
        lemma_exp2_pos((k - 1) as nat);
    }
}

proof fn lemma_bit_len_upper(x: nat, k: nat)
    requires
        x < exp2(k),
    ensures
        bit_len(x) <= k,
    decreases k,
{
    if x > 0 && k > 0 {
        lemma_bit_len_upper(x / 2, (k - 1) as nat);
    }
}

proof fn lemma_bit_len_lower(x: nat, k: nat)
    requires
        x >= exp2(k),
    ensures
        bit_len(x) > k,
    decreases k,
{
    lemma_exp2_pos(k);
    if k > 0 {
        lemma_bit_len_lower(x / 2, (k - 1) as nat);
    }
}

/// `2^k` for `k <= 11`.
fn exp2_exec(k: u32) -> (p: u128)
    requires
        k <= 11,
    ensures
        p as nat == exp2(k as nat),
        1 <= p <= 2048,
{
    let mut p: u128 = 1;
    let mut j: u32 = 0;
    while j < k
        invariant
            j <= k <= 11,
            p as nat == exp2(j as nat),
            1 <= p <= exp2(j as nat),
            exp2(j as nat) <= 2048,
        decreases k - j,
    {
        proof {
            lemma_exp2_mono(j as nat + 1, 11);
            reveal_with_fuel(exp2, 12);
        }
        p = p * 2;
        j = j + 1;
    }
    p
}

proof fn lemma_exp2_mono(a: nat, b: nat)
    requires
        a <= b,
    ensures
        exp2(a) <= exp2(b),
    decreases b,
{
    if a < b {
        lemma_exp2_mono(a, (b - 1) as nat);
    }
}

proof fn lemma_exp2_values()
    ensures
        exp2(11) == 2048,
        exp2(53) == 0x20_0000_0000_0000,
        exp2(64) == 0x1_0000_0000_0000_0000,
{
    reveal_with_fuel(exp2, 12);
    assert(exp2(11) == 2048);
    assert(exp2(22) == 2048 * 2048) by { lemma_exp2_add(11, 11); }
    assert(exp2(44) == exp2(22) * exp2(22)) by { lemma_exp2_add(22, 22); }
    assert(exp2(53) == exp2(44) * exp2(9)) by { lemma_exp2_add(44, 9); }
    assert(exp2(64) == exp2(53) * exp2(11)) by { lemma_exp2_add(53, 11); }
}

proof fn lemma_exp2_add(a: nat, b: nat)
    ensures
        exp2(a + b) == exp2(a) * exp2(b),
    decreases b,
{
    if b > 0 {
        lemma_exp2_add(a, (b - 1) as nat);
        assert(exp2(a + b) == 2 * exp2((a + b - 1) as nat));
        assert(exp2(b) == 2 * exp2((b - 1) as nat));
        assert((a + b - 1) as nat == a + (b - 1) as nat);
        assert(exp2(a) * (2 * exp2((b - 1) as nat)) == 2 * (exp2(a) * exp2((b - 1) as nat))) by (nonlinear_arith);
    } else {
        assert(exp2(0) == 1);
        assert(a + b == a);
    }
}

/// `n as f64`, as an exact integer value.
pub fn nearest_double_exec(n: u64) -> (v: u128)
    ensures
        v as nat == nearest_double(n as nat),
        v <= 0x1_0000_0000_0000_0800,
{
    proof {
        lemma_exp2_values();
    }
    if n < 0x20_0000_0000_0000u64 {
        return n as u128;
    }
    let mut x: u64 = n;
    let mut bl: u32 = 0;
    assert(exp2(0) == 1);
    assert((n as nat) / 1 == n as nat);
    while x > 0
        invariant
            bit_len(n as nat) == bl + bit_len(x as nat),
            bl <= 64,
            x as nat == (n as nat) / exp2(bl as nat),
            exp2(bl as nat) >= 1,
            n as nat >= exp2(53),
            (n as nat) < exp2(64),
        decreases x,
    {
        proof {
            lemma_bit_len_upper(n as nat, 64);
            assert(bit_len(x as nat) >= 1);
        }
        x = x / 2;
        bl = bl + 1;
        proof {
            assert(exp2(bl as nat) == 2 * exp2((bl - 1) as nat));
            let e = exp2((bl - 1) as nat);
            assert((n as nat) / (2 * e) == ((n as nat) / e) / 2) by {
                vstd::arithmetic::div_mod::lemma_div_denominator(n as int, e as int, 2);
            }
        }
    }
    proof {
        lemma_bit_len_lower(n as nat, 53);
        lemma_bit_len_upper(n as nat, 64);
    }
    let s = bl - 53;
    let p = exp2_exec(s);
    let nn = n as u128;
    let q = nn / p;
    let r = nn % p;
    proof {
        vstd::arithmetic::div_mod::lemma_fundamental_div_mod(nn as int, p as int);
        assert(q * p <= nn) by (nonlinear_arith)
            requires nn == p * q + r, r >= 0, p >= 1, q >= 0;
        assert((q + 1) * p <= 0x1_0000_0000_0000_0000 + p) by (nonlinear_arith)
            requires nn == p * q + r, r < p, nn < 0x1_0000_0000_0000_0000, p >= 1, q >= 0;
        assert(2 * r > p || (2 * r == p && q % 2 == 1) ==> (q + 1) * p == (q + 1) * p);
    }
    let rounded = if 2 * r > p || (2 * r == p && q % 2 == 1) { q + 1 } else { q };
    proof {
        assert(rounded * p <= (q + 1) * p) by (nonlinear_arith)
            requires rounded <= q + 1, p >= 1;
    }
    rounded * p
}

/// Appends the low `places` digits of `v`, zero-padded.
fn push_padded(s: &mut String, v: u128, places: u32)
    ensures
        final(s)@ == old(s)@ + pad_digits(v as nat, places as nat),
    decreases places,
{
    if places > 0 {
        push_padded(s, v / 10, places - 1);
        push_char(s, char_of_digit((v % 10) as u32));
    }
    assert(s@ =~= old(s)@ + pad_digits(v as nat, places as nat));
}

/// Appends `num / den` with `places` decimals, rounded ties to even.
pub fn push_fixed_point(s: &mut String, num: u128, den: u128, places: u32)
    requires
        den > 0,
        places <= 2,
        num <= 0x2_0000_0000_0000_0000,
    ensures
        final(s)@ == old(s)@ + fixed_point(num as nat, den as nat, places as nat),
{
    let scale: u128 = if places == 0 { 1 } else if places == 1 { 10 } else { 100 };
    proof {
        reveal_with_fuel(exp10, 3);
        assert(scale as nat == exp10(places as nat));
    }
    let scaled = num * scale;
    let q0 = scaled / den;
    let r = scaled % den;
    proof {
        vstd::arithmetic::div_mod::lemma_fundamental_div_mod(scaled as int, den as int);
        assert(q0 <= scaled) by (nonlinear_arith)
            requires scaled == den * q0 + r, r >= 0, den >= 1, q0 >= 0;
    }
    let q = if 2 * r > den || (2 * r == den && q0 % 2 == 1) { q0 + 1 } else { q0 };
    push_decimal(s, q / scale);
    push_char(s, '.');
    push_padded(s, q % scale, places);
    assert(s@ =~= old(s)@ + fixed_point(num as nat, den as nat, places as nat));
}

} // verus!
