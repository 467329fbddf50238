use vstd::prelude::*;
use vstd::arithmetic::power2::{
    pow2,
    lemma_pow2_unfold,
    lemma_pow2_strictly_increases,
    lemma2_to64,
    lemma2_to64_rest,
};
use vstd::arithmetic::div_mod::{
    lemma_fundamental_div_mod,
    lemma_fundamental_div_mod_converse,
    lemma_div_denominator,
};
use vstd::arithmetic::power2::lemma_pow2_adds;

verus! {

/// The bit pattern of the double `1.0`.
pub const ONE_BITS: u64 = 0x3FF0_0000_0000_0000;

/// The bit pattern of the double `0.0`.
pub const ZERO_BITS: u64 = 0;

/// The sign bit of the double with bit pattern `b`.
pub open spec fn f64_sign(b: u64) -> int {
    b as int / 0x8000_0000_0000_0000
}

/// The biased exponent field of the double with bit pattern `b`.
pub open spec fn f64_exponent(b: u64) -> int {
    (b as int / 0x10_0000_0000_0000) % 0x800
}

/// The fraction field of the double with bit pattern `b`.
pub open spec fn f64_fraction(b: u64) -> int {
    b as int % 0x10_0000_0000_0000
}

/// The absolute value of an integer.
pub open spec fn abs_int(v: int) -> int {
    if v < 0 {
        -v
    } else {
        v
    }
}

/// `b` is the bit pattern of the double whose value is the integer `v`:
/// `+0.0` for zero, otherwise a normal double `(-1)^s * (2^52 + f) * 2^(e - 1075)`
/// with `e <= 1075`.
pub open spec fn denotes_integer(b: u64, v: int) -> bool {
    if v == 0 {
        b == 0
    } else {
        &&& f64_sign(b) == (if v < 0 {
            1int
        } else {
            0int
        })
        &&& 1023 <= f64_exponent(b) <= 1075
        &&& 0x10_0000_0000_0000 + f64_fraction(b) == abs_int(v) * pow2(
            (1075 - f64_exponent(b)) as nat,
        )
    }
}

/// The bit pattern of the double that has the value of `v` (every `i32` is
/// exactly a double).
pub fn i32_to_f64_bits(v: i32) -> (b: u64)
    ensures
        denotes_integer(b, v as int),
{
    if v == 0 {
        return 0;
    }
    proof {
        lemma2_to64();
        lemma2_to64_rest();
    }
    let negative = v < 0;
    let m: u64 = if negative {
        (-(v as i64)) as u64
    } else {
        v as u64
    };
    assert(m as int == abs_int(v as int));
    let mut e: u64 = 0;
    let mut p: u64 = 1;
    while p <= m / 2
        invariant
            1 <= p <= m,
            m <= 0x8000_0000,
            p as nat == pow2(e as nat),
            e <= 31,
        decreases m - p,
    {
        proof {
            lemma2_to64();
            if e >= 31 {
                if e > 31 {
                    lemma_pow2_strictly_increases(31, e as nat);
                }
                assert(false);
            }
            lemma_pow2_unfold((e + 1) as nat);
        }
        p = p * 2;
        e = e + 1;
    }
    assert(m < 2 * p);
    let mut scaled: u64 = m;
    let mut k: u64 = e;
    proof {
        lemma_pow2_unfold((e + 1) as nat);
        assert((k - e) as nat == 0);
        assert(m as int * pow2(0) == m as int);
    }
    while k < 52
        invariant
            e <= k <= 52,
            e <= 31,
            pow2(k as nat) <= scaled < pow2((k + 1) as nat),
            scaled as int == m as int * pow2((k - e) as nat),
        decreases 52 - k,
    {
        proof {
            lemma2_to64_rest();
            if k + 1 < 52 {
                lemma_pow2_strictly_increases((k + 1) as nat, 52);
            }
            lemma_pow2_unfold((k + 1) as nat);
            lemma_pow2_unfold((k + 2) as nat);
            lemma_pow2_unfold((k + 1 - e) as nat);
            assert(m as int * pow2((k + 1 - e) as nat) == 2 * (m as int * pow2((k - e) as nat)))
                by (nonlinear_arith)
                requires
                    pow2((k + 1 - e) as nat) == 2 * pow2((k - e) as nat),
            ;
        }
        scaled = scaled * 2;
        k = k + 1;
    }
    let fraction: u64 = scaled - 0x10_0000_0000_0000;
    let exponent: u64 = 1023 + e;
    let sign: u64 = if negative {
        1
    } else {
        0
    };
    let b = sign * 0x8000_0000_0000_0000 + exponent * 0x10_0000_0000_0000 + fraction;
    proof {
        lemma_fundamental_div_mod_converse(
            b as int,
            0x10_0000_0000_0000,
            sign * 0x800 + exponent,
            fraction as int,
        );
        lemma_fundamental_div_mod_converse(
            (sign * 0x800 + exponent) as int,
            0x800,
            sign as int,
            exponent as int,
        );
        lemma_fundamental_div_mod_converse(
            b as int,
            0x8000_0000_0000_0000,
            sign as int,
            exponent * 0x10_0000_0000_0000 + fraction,
        );
        assert((1075 - (1023 + e)) as nat == (52 - e) as nat);
    }
    b
}

/// A bit pattern is made of its sign, exponent and fraction fields.
proof fn lemma_bits_fields(b: u64)
    ensures
        b as int == f64_sign(b) * 0x8000_0000_0000_0000 + f64_exponent(b) * 0x10_0000_0000_0000
            + f64_fraction(b),
        0 <= f64_fraction(b) < 0x10_0000_0000_0000,
        0 <= f64_exponent(b) < 0x800,
{
    let x = b as int;
    lemma_fundamental_div_mod(x, 0x10_0000_0000_0000);
    let q = x / 0x10_0000_0000_0000;
    lemma_fundamental_div_mod(q, 0x800);
    lemma_div_denominator(x, 0x10_0000_0000_0000, 0x800);
    assert(0x10_0000_0000_0000 * 0x800 == 0x8000_0000_0000_0000int);
}

/// Each integer has at most one bit pattern that denotes it.
pub proof fn lemma_denotes_integer_unique(b1: u64, b2: u64, v: int)
    requires
        denotes_integer(b1, v),
        denotes_integer(b2, v),
    ensures
        b1 == b2,
{
    if v != 0 {
        lemma_bits_fields(b1);
        lemma_bits_fields(b2);
        let e1 = f64_exponent(b1);
        let e2 = f64_exponent(b2);
        let a1 = 0x10_0000_0000_0000 + f64_fraction(b1);
        let a2 = 0x10_0000_0000_0000 + f64_fraction(b2);
        let m = abs_int(v);
        if e1 < e2 {
            lemma_exponent_order(a1, a2, m, (1075 - e2) as nat, (e2 - e1) as nat);
        } else if e2 < e1 {
            lemma_exponent_order(a2, a1, m, (1075 - e1) as nat, (e1 - e2) as nat);
        }
        assert(e1 == e2);
        assert(a1 == a2);
    }
}

/// An integer scaled by a larger power of two is at least twice as large.
proof fn lemma_exponent_order(a_small_exp: int, a_large_exp: int, m: int, k: nat, d: nat)
    requires
        d >= 1,
        a_large_exp >= 0,
        a_small_exp == m * pow2(k + d),
        a_large_exp == m * pow2(k),
    ensures
        a_small_exp >= 2 * a_large_exp,
{
    lemma_pow2_adds(k, d);
    lemma_pow2_strictly_increases(0, d);
    lemma2_to64();
    let p = pow2(d);
    assert(p >= 2);
    assert(a_small_exp == a_large_exp * p) by (nonlinear_arith)
        requires
            a_small_exp == m * pow2(k + d),
            a_large_exp == m * pow2(k),
            pow2(k + d) == pow2(k) * p,
    ;
    assert(a_large_exp * p >= 2 * a_large_exp) by (nonlinear_arith)
        requires
            p >= 2,
            a_large_exp >= 0,
    ;
}

/// The bit patterns of `1.0` and `0.0` denote one and zero.
pub proof fn lemma_one_and_zero_bits()
    ensures
        denotes_integer(ONE_BITS, 1),
        denotes_integer(ZERO_BITS, 0),
{
    lemma2_to64();
    lemma2_to64_rest();
    lemma_fundamental_div_mod_converse(
        0x3FF0_0000_0000_0000int,
        0x10_0000_0000_0000int,
        0x3FF,
        0,
    );
    lemma_fundamental_div_mod_converse(0x3FF, 0x800, 0, 0x3FF);
    lemma_fundamental_div_mod_converse(
        0x3FF0_0000_0000_0000int,
        0x8000_0000_0000_0000int,
        0,
        0x3FF0_0000_0000_0000int,
    );
    assert(((1075 - f64_exponent(ONE_BITS)) as nat) == 52);
}

} // verus!
