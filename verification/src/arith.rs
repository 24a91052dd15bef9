//! The machine's arithmetic: 32-bit two's-complement words.
//!
//! Every operation is defined on the mathematical integers and then brought
//! back into the word by [`wrap`]. The executable versions are proved to
//! compute exactly these values and never panic.

use vstd::prelude::*;
use vstd::arithmetic::logarithm::{lemma_log0, lemma_log_s, log};
use vstd::arithmetic::power2::{is_pow2, lemma2_to64, lemma_pow2_unfold, pow2};
use crate::types::Operator;

verus! {

/// The number of values a word can take, 2^32.
pub open spec fn modulus() -> int {
    0x1_0000_0000
}

/// The word that is congruent to `x` modulo 2^32: what is left of `x` when
/// only its low 32 bits are kept and read as a signed number.
pub open spec fn wrap(x: int) -> i32 {
    let low = x % modulus();
    if low >= 0x8000_0000 {
        (low - modulus()) as i32
    } else {
        low as i32
    }
}

/// The 32 bits of a word read as an unsigned number.
pub open spec fn bits(a: i32) -> int {
    a as int % modulus()
}

/// Integer division that rounds toward zero. By convention the quotient by
/// zero is zero; the machine never asks for it.
pub open spec fn quotient(a: int, b: int) -> int {
    if b == 0 {
        0
    } else if a >= 0 && b > 0 {
        a / b
    } else if a >= 0 {
        -(a / (-b))
    } else if b > 0 {
        -((-a) / b)
    } else {
        (-a) / (-b)
    }
}

/// `a` shifted left by `count` bits: the bits that leave the word are lost
/// and zeros come in. The count is taken as it is: one outside `0..32`
/// moves every bit out and leaves zero.
pub open spec fn shift_left(a: i32, count: i32) -> i32 {
    if 0 <= count < 32 {
        wrap(a * pow2(count as nat))
    } else {
        0
    }
}

/// `a` shifted right by `count` bits as a logical shift: zeros come in at
/// the top whatever the sign. The count is taken as it is: one outside
/// `0..32` moves every bit out and leaves zero.
pub open spec fn shift_right(a: i32, count: i32) -> i32 {
    if 0 <= count < 32 {
        wrap(bits(a) / (pow2(count as nat) as int))
    } else {
        0
    }
}

/// The negation of a word; the most negative word is its own negation.
pub open spec fn negated(a: i32) -> i32 {
    wrap(-a)
}

/// What a binary operator computes from its left and right operands.
pub open spec fn op_value(op: Operator, a: i32, b: i32) -> i32 {
    match op {
        Operator::Add => wrap(a + b),
        Operator::Sub => wrap(a - b),
        Operator::Mul => wrap(a * b),
        Operator::Div => wrap(quotient(a as int, b as int)),
        Operator::Shl => shift_left(a, b),
        Operator::Shr => shift_right(a, b),
    }
}

/// A word's bit pattern as an unsigned number, and back.
proof fn lemma_bits_of(a: i32)
    ensures
        (a as u32) as int == bits(a),
        wrap(bits(a)) == a,
{
    assert(a >= 0 ==> a as u32 == a) by (bit_vector);
    assert(a < 0 ==> (a as u32) == a + 0x1_0000_0000) by (bit_vector);
}

/// An unsigned number read as a word.
proof fn lemma_word_of(u: u32)
    ensures
        u as i32 == wrap(u as int),
{
    assert(u < 0x8000_0000 ==> u as i32 == u) by (bit_vector);
    assert(u >= 0x8000_0000 ==> (u as i32) == u - 0x1_0000_0000) by (bit_vector);
}

/// Numbers that differ by a multiple of 2^32 wrap to the same word.
pub proof fn lemma_wrap_congruent(x: int, y: int)
    requires
        x % modulus() == y % modulus(),
    ensures
        wrap(x) == wrap(y),
{
}

/// Multiplying two numbers that agree modulo 2^32 by the same factor gives
/// products that agree modulo 2^32.
proof fn lemma_times_congruent(x: int, y: int, k: int)
    requires
        x % modulus() == y % modulus(),
    ensures
        (x * k) % modulus() == (y * k) % modulus(),
{
    vstd::arithmetic::div_mod::lemma_mul_mod_noop_left(x, k, modulus());
    vstd::arithmetic::div_mod::lemma_mul_mod_noop_left(y, k, modulus());
}

/// 2^count fits an unsigned word and is what `1 << count` computes.
proof fn lemma_one_shifted(count: u32)
    requires
        count < 32,
    ensures
        (1u32 << count) as int == pow2(count as nat),
        0 < pow2(count as nat) <= 0x8000_0000,
{
    vstd::arithmetic::power2::lemma2_to64();
    vstd::arithmetic::power2::lemma_pow2_pos(count as nat);
    if count < 31 {
        vstd::arithmetic::power2::lemma_pow2_strictly_increases(count as nat, 31);
    }
    vstd::bits::lemma_u32_shl_is_mul(1, count);
}

impl Operator {
    /// Applies the operator to two words. The one case without a value is
    /// a division by zero.
    pub fn apply(self, a: i32, b: i32) -> (r: Option<i32>)
        ensures
            r == (if self == Operator::Div && b == 0 {
                None
            } else {
                Some(op_value(self, a, b))
            }),
    {
        match self {
            Operator::Add => Some(a.wrapping_add(b)),
            Operator::Sub => Some(a.wrapping_sub(b)),
            Operator::Mul => Some(a.wrapping_mul(b)),
            Operator::Div => {
                if b == 0 {
                    None
                } else {
                    Some(divide(a, b))
                }
            },
            Operator::Shl => Some(shl(a, b)),
            Operator::Shr => Some(shr(a, b)),
        }
    }
}

/// Division that rounds toward zero and wraps in the one case that leaves
/// the word, the most negative number divided by -1.
pub fn divide(a: i32, b: i32) -> (q: i32)
    requires
        b != 0,
    ensures
        q == wrap(quotient(a as int, b as int)),
{
    let wide_a: i64 = a as i64;
    let wide_b: i64 = b as i64;
    let size_a: i64 = if wide_a < 0 { -wide_a } else { wide_a };
    let size_b: i64 = if wide_b < 0 { -wide_b } else { wide_b };
    let size_q: i64 = size_a / size_b;
    assert(0 <= size_q <= size_a) by (nonlinear_arith)
        requires
            size_q == size_a / size_b,
            size_a >= 0,
            size_b > 0,
    ;
    let wide_q: i64 = if (wide_a < 0) != (wide_b < 0) { -size_q } else { size_q };
    if wide_q > 0x7fff_ffff {
        i32::MIN
    } else {
        wide_q as i32
    }
}

/// The executable form of [`shift_left`].
pub fn shl(a: i32, count: i32) -> (r: i32)
    ensures
        r == shift_left(a, count),
{
    if count < 0 || count >= 32 {
        0
    } else {
        let n: u32 = count as u32;
        let raw: u32 = a as u32;
        let moved: u32 = raw << n;
        proof {
            lemma_bits_of(a);
            lemma_one_shifted(n);
            let p: u32 = 1u32 << n;
            assert(raw << n == ((raw * p) as u32)) by (bit_vector)
                requires
                    n < 32,
                    p == 1u32 << n,
            ;
            assert(((raw * p) as u32) as int == (raw * p) % 0x1_0000_0000) by (bit_vector);
            lemma_word_of(moved);
            let power = pow2(count as nat) as int;
            assert(moved as int == (raw * power) % modulus());
            lemma_times_congruent(raw as int, a as int, power);
            vstd::arithmetic::div_mod::lemma_mod_twice(raw * power, modulus());
            lemma_wrap_congruent(moved as int, a * power);
        }
        moved as i32
    }
}

/// The executable form of [`shift_right`].
pub fn shr(a: i32, count: i32) -> (r: i32)
    ensures
        r == shift_right(a, count),
{
    if count < 0 || count >= 32 {
        0
    } else {
        let n: u32 = count as u32;
        let raw: u32 = a as u32;
        let moved: u32 = raw >> n;
        proof {
            lemma_bits_of(a);
            lemma_one_shifted(n);
            vstd::bits::lemma_u32_shr_is_div(raw, n);
            lemma_word_of(moved);
        }
        moved as i32
    }
}

/// The exponent of a power of two: the `k` with `n == 2^k`. For any other
/// positive number it is the exponent of the largest power of two that is
/// not above it.
pub open spec fn exponent(n: i32) -> i32 {
    log(2, n as int) as i32
}

/// A word that is a power of two is two to the power of its exponent, and
/// the exponent is below 31.
pub proof fn lemma_power_of_exponent(n: i32)
    requires
        is_pow2(n as int),
    ensures
        0 <= exponent(n) <= 30,
        n as int == pow2(exponent(n) as nat),
{
    lemma_power_unfolds(n as int);
    lemma_exponent_bound(log(2, n as int), n as int);
}

/// A power of two that fits a word has an exponent below 31.
proof fn lemma_exponent_bound(k: int, n: int)
    requires
        0 <= k,
        pow2(k as nat) <= n <= i32::MAX,
    ensures
        k <= 30,
{
    lemma2_to64();
    if k > 31 {
        vstd::arithmetic::power2::lemma_pow2_strictly_increases(31, k as nat);
    }
}

/// A power of two is two to the power of its logarithm.
proof fn lemma_power_unfolds(n: int)
    requires
        is_pow2(n),
    ensures
        0 <= log(2, n),
        n == pow2(log(2, n) as nat),
    decreases n,
{
    reveal(is_pow2);
    if n == 1 {
        lemma_log0(2, 1);
        lemma2_to64();
    } else {
        lemma_power_unfolds(n / 2);
        lemma_log_s(2, n);
        lemma_pow2_unfold(log(2, n) as nat);
    }
}

/// The bit test for powers of two agrees with the definition.
proof fn lemma_single_bit(n: i32)
    requires
        n > 0,
    ensures
        (n & ((n - 1) as i32) == 0) <==> is_pow2(n as int),
    decreases n,
{
    reveal(is_pow2);
    if n == 1 {
        assert(1i32 & 0i32 == 0) by (bit_vector);
    } else {
        let half: i32 = (n / 2) as i32;
        assert(n > 1 && half == n / 2 ==> ((n & ((n - 1) as i32) == 0) <==> (n % 2 == 0 && half & ((
        half - 1) as i32) == 0))) by (bit_vector);
        lemma_single_bit(half);
    }
}

/// Whether a word is a power of two: positive, with a single bit set.
pub fn is_power_of_two(n: i32) -> (b: bool)
    ensures
        b == is_pow2(n as int),
{
    if n > 0 {
        proof {
            lemma_single_bit(n);
        }
        n & (n - 1) == 0
    } else {
        proof {
            reveal(is_pow2);
        }
        false
    }
}

/// The base-2 logarithm of a positive word, rounded down.
pub fn log2(n: i32) -> (k: i32)
    requires
        n > 0,
    ensures
        k == exponent(n),
        0 <= k <= 30,
{
    let mut rest: i32 = n;
    let mut k: i32 = 0;
    proof {
        lemma2_to64();
        assert(rest as int * pow2(k as nat) == rest) by (nonlinear_arith)
            requires
                pow2(k as nat) == 1,
        ;
    }
    while rest > 1
        invariant
            0 < rest <= n,
            0 <= k <= 30,
            k + log(2, rest as int) == log(2, n as int),
            rest as int * pow2(k as nat) <= n,
        decreases rest,
    {
        proof {
            let power = pow2(k as nat) as int;
            vstd::arithmetic::power2::lemma_pow2_pos(k as nat);
            lemma_log_s(2, rest as int);
            lemma_pow2_unfold((k + 1) as nat);
            lemma_halving(rest as int, power);
            lemma_exponent_bound(k + 1, n as int);
        }
        rest = rest / 2;
        k = k + 1;
    }
    proof {
        lemma_log0(2, 1);
    }
    k
}

/// Halving one factor and doubling the other does not grow a product.
proof fn lemma_halving(rest: int, power: int)
    requires
        rest > 1,
        power > 0,
    ensures
        (rest / 2) * (2 * power) <= rest * power,
        2 * power <= rest * power,
{
    assert((rest / 2) * (2 * power) == ((rest / 2) * 2) * power) by (nonlinear_arith);
    assert(((rest / 2) * 2) * power <= rest * power) by (nonlinear_arith)
        requires
            (rest / 2) * 2 <= rest,
            power > 0,
    ;
    assert(2 * power <= rest * power) by (nonlinear_arith)
        requires
            rest >= 2,
            power > 0,
    ;
}

/// The executable form of [`negated`].
pub fn negate(a: i32) -> (r: i32)
    ensures
        r == negated(a),
{
    0i32.wrapping_sub(a)
}

} // verus!
