//! Human-readable file sizes: whole bytes below one KiB, otherwise KiB or MiB
//! with one decimal, exactly as std prints `bytes as f64 / 1024.0` (or
//! `/ 1048576.0`) with `{:.1}`.
//!
//! The arithmetic is done on integers. A `u64` below 2^53 converts to `f64`
//! exactly and dividing by a power of two is exact, so the only roundings are
//! the conversion of larger byte counts to `f64` (to nearest, ties to even)
//! and the one-decimal rendering (to nearest, ties to even).

use vstd::prelude::*;
use crate::text::{ascii_chars, ascii_string, all_ascii, decimal_bytes, decimal_u64, digit_byte, lemma_decimal_ascii};

verus! {

/// 2 to the power `n`.
pub open spec fn pow2(n: nat) -> nat
    decreases n,
{
    if n == 0 {
        1
    } else {
        2 * pow2((n - 1) as nat)
    }
}

/// Number of binary digits of `b` (0 for 0).
pub open spec fn bits_len(b: nat) -> nat
    decreases b,
{
    if b == 0 {
        0
    } else {
        1 + bits_len(b / 2)
    }
}

/// `num / den` rounded to the nearest integer, ties to the even neighbour.
pub open spec fn round_half_even(num: nat, den: nat) -> nat
    recommends
        den > 0,
{
    let q = num / den;
    let r = num % den;
    if 2 * r > den || (2 * r == den && q % 2 == 1) {
        q + 1
    } else {
        q
    }
}

/// The value of `b as f64` for a `u64` `b`: exact below 2^53, otherwise
/// rounded to the nearest multiple of the spacing of doubles of its size,
/// ties to even.
pub open spec fn f64_of_u64(b: nat) -> nat {
    if b < pow2(53) {
        b
    } else {
        let k = (bits_len(b) - 53) as nat;
        round_half_even(b, pow2(k)) * pow2(k)
    }
}

/// `t / 10` written with one decimal, e.g. 123 as `12.3`.
pub open spec fn one_decimal_bytes(t: nat) -> Seq<u8> {
    decimal_bytes(t / 10) + seq![46u8, digit_byte(t % 10)]
}

/// The text `format_file_size` produces, as ASCII bytes.
pub open spec fn file_size_text(bytes: nat) -> Seq<u8> {
    if bytes < 1024 {
        decimal_bytes(bytes) + seq![32u8, 66u8]
    } else if bytes < 1048576 {
        one_decimal_bytes(round_half_even(10 * bytes, 1024)) + seq![32u8, 75u8, 66u8]
    } else {
        one_decimal_bytes(round_half_even(10 * f64_of_u64(bytes), pow2(20))) + seq![
            32u8,
            77u8,
            66u8,
        ]
    }
}

proof fn lemma_pow2_positive(n: nat)
    ensures
        pow2(n) >= 1,
    decreases n,
{
    if n > 0 {
        lemma_pow2_positive((n - 1) as nat);
    }
}

proof fn lemma_pow2_values()
    ensures
        pow2(11) == 2048,
        pow2(20) == 1048576,
        pow2(53) == 9007199254740992,
        pow2(64) == 18446744073709551616,
{
    reveal_with_fuel(pow2, 65);
}

proof fn lemma_bits_len_upper(t: nat, n: nat)
    requires
        t < pow2(n),
    ensures
        bits_len(t) <= n,
    decreases n,
{
    if t > 0 {
        if n == 0 {
            assert(false);
        } else {
            lemma_bits_len_upper(t / 2, (n - 1) as nat);
        }
    }
}

proof fn lemma_bits_len_lower(t: nat, n: nat)
    requires
        t >= pow2(n),
    ensures
        bits_len(t) >= n + 1,
    decreases n,
{
    lemma_pow2_positive(n);
    if n > 0 {
        lemma_bits_len_lower(t / 2, (n - 1) as nat);
    }
}

fn round_half_even_exec(num: u128, den: u128) -> (r: u128)
    requires
        den > 0,
        num < u128::MAX,
    ensures
        r == round_half_even(num as nat, den as nat),
{
    let q = num / den;
    let rem = num % den;
    if rem > den - rem || (rem == den - rem && q % 2 == 1) {
        q + 1
    } else {
        q
    }
}

fn f64_value_of(b: u64) -> (x: u128)
    ensures
        x == f64_of_u64(b as nat),
        x <= 18446744073709551616 + 2048,
{
    proof {
        lemma_pow2_values();
    }
    if b < 9007199254740992u64 {
        return b as u128;
    }
    let mut t: u64 = b;
    let mut len: u64 = 0;
    proof {
        lemma_bits_len_upper(b as nat, 64);
    }
    while t > 0
        invariant
            bits_len(b as nat) == len + bits_len(t as nat),
            bits_len(b as nat) <= 64,
        decreases t,
    {
        t = t / 2;
        len = len + 1;
    }
    proof {
        lemma_bits_len_lower(b as nat, 53);
    }
    let k = len - 53;
    let mut unit: u128 = 1;
    let mut i: u64 = 0;
    while i < k
        invariant
            i <= k,
            k <= 11,
            unit == pow2(i as nat),
            unit <= 2048,
        decreases k - i,
    {
        proof {
            reveal_with_fuel(pow2, 2);
            lemma_pow2_mono(i as nat + 1, 11);
            lemma_pow2_values();
        }
        unit = unit * 2;
        i = i + 1;
    }
    proof {
        lemma_pow2_positive(k as nat);
    }
    let r = round_half_even_exec(b as u128, unit);
    proof {
        let q = (b as nat) / (unit as nat);
        assert(q * unit <= b) by (nonlinear_arith)
            requires
                q == (b as nat) / (unit as nat),
                unit > 0,
        ;
        assert(r <= q + 1);
        assert(r * unit <= q * unit + unit) by (nonlinear_arith)
            requires
                r <= q + 1,
                unit > 0,
        ;
    }
    r * unit
}

proof fn lemma_pow2_mono(a: nat, b: nat)
    requires
        a <= b,
    ensures
        pow2(a) <= pow2(b),
    decreases b,
{
    if a < b {
        lemma_pow2_mono(a, (b - 1) as nat);
        lemma_pow2_positive((b - 1) as nat);
    }
}

/// One-decimal rendering of `t / 10`.
fn one_decimal(t: u128) -> (out: Vec<u8>)
    requires
        t / 10 <= u64::MAX,
    ensures
        out@ == one_decimal_bytes(t as nat),
{
    let mut out = decimal_u64((t / 10) as u64);
    out.push(46u8);
    out.push(48u8 + (t % 10) as u8);
    out
}

/// The size of a file for display: `"512 B"`, `"1.5 KB"`, `"2.0 MB"`.
pub fn format_file_size(bytes: u64) -> (s: String)
    ensures
        s@ == ascii_chars(file_size_text(bytes as nat)),
{
    proof {
        lemma_pow2_values();
    }
    let mut out: Vec<u8>;
    if bytes < 1024 {
        out = decimal_u64(bytes);
        out.push(32u8);
        out.push(66u8);
        proof {
            lemma_decimal_ascii(bytes as nat);
        }
    } else if bytes < 1048576 {
        let t = round_half_even_exec(10 * bytes as u128, 1024);
        proof {
            assert(t <= 10 * 1048576);
        }
        out = one_decimal(t);
        out.push(32u8);
        out.push(75u8);
        out.push(66u8);
        proof {
            lemma_decimal_ascii(t as nat / 10);
        }
    } else {
        let x = f64_value_of(bytes);
        let t = round_half_even_exec(10 * x, 1048576);
        proof {
            assert(t <= 10 * x / 1048576 + 1);
            assert(t / 10 <= u64::MAX);
        }
        out = one_decimal(t);
        out.push(32u8);
        out.push(77u8);
        out.push(66u8);
        proof {
            lemma_decimal_ascii(t as nat / 10);
        }
    }
    proof {
        assert(all_ascii(out@));
    }
    ascii_string(out)
}

} // verus!
