//! Arithmetic that goes through the native machine word: products,
//! quotients and remainders, and the two's-complement reading of bits.

use vstd::prelude::*;
use vstd::arithmetic::power2::{pow2, lemma_pow2_unfold, lemma_pow2_pos, lemma_pow2_adds, lemma2_to64, lemma2_to64_rest, lemma_pow2_strictly_increases};
use vstd::arithmetic::div_mod::{lemma_mod_multiples_vanish, lemma_fundamental_div_mod, lemma_fundamental_div_mod_converse, lemma_small_mod, lemma_div_is_ordered_by_denominator, lemma_add_mod_noop, lemma_sub_mod_noop, lemma_mul_mod_noop};
use crate::bit::Bit;
use crate::bitvec::{bits_val, encode, decode, signed_of, wrap_unsigned, wrap_signed, not_seq, lemma_encode_val, lemma_bits_val_bound, lemma_not_val};
use crate::error::NumError;

verus! {

/// The magnitude of an integer.
pub open spec fn abs(x: int) -> int {
    if x < 0 {
        -x
    } else {
        x
    }
}

/// The quotient of `x` by `d` rounded toward zero.
pub open spec fn trunc_div(x: int, d: int) -> int {
    if (x < 0) == (d < 0) {
        abs(x) / abs(d)
    } else {
        -(abs(x) / abs(d))
    }
}

/// The remainder that goes with `trunc_div`: it takes the sign of the dividend.
pub open spec fn trunc_rem(x: int, d: int) -> int {
    if x < 0 {
        -(abs(x) % abs(d))
    } else {
        abs(x) % abs(d)
    }
}

/// Reducing modulo `2^64` first does not change a reduction modulo `2^n`, `n <= 64`.
pub proof fn lemma_mod_pow2_64(x: int, n: nat)
    requires
        n <= 64,
    ensures
        (x % pow2(64) as int) % pow2(n) as int == x % pow2(n) as int,
{
    lemma_pow2_pos(n);
    lemma_pow2_pos(64);
    lemma_pow2_pos((64 - n) as nat);
    lemma_pow2_adds(n, (64 - n) as nat);
    let m = pow2(64) as int;
    let p = pow2(n) as int;
    let k = pow2((64 - n) as nat) as int;
    lemma_fundamental_div_mod(x, m);
    let q = x / m;
    assert(m * q == p * (k * q)) by (nonlinear_arith)
        requires
            m == p * k,
    ;
    assert(x % m == p * (-(k * q)) + x) by (nonlinear_arith)
        requires
            x == m * q + x % m,
            m * q == p * (k * q),
    ;
    lemma_mod_multiples_vanish(-(k * q), x, p);
}

/// A value in the two's-complement range of width `w` reads back from its
/// `w`-bit pattern.
pub proof fn lemma_signed_round_trip(v: int, w: nat)
    requires
        w > 0,
        -pow2((w - 1) as nat) <= v < pow2((w - 1) as nat),
    ensures
        signed_of(v % pow2(w) as int, w) == v,
{
    lemma_pow2_unfold(w);
    lemma_pow2_pos(w);
    let m = pow2(w) as int;
    if v >= 0 {
        lemma_small_mod(v as nat, m as nat);
    } else {
        lemma_fundamental_div_mod_converse(v, m, -1, v + m);
    }
}

/// The two's-complement reading of a `w`-bit pattern lies in the signed
/// range and has the pattern as its residue.
pub proof fn lemma_signed_of_range(u: int, w: nat)
    requires
        w > 0,
        0 <= u < pow2(w),
    ensures
        -pow2((w - 1) as nat) <= signed_of(u, w) < pow2((w - 1) as nat),
        signed_of(u, w) % pow2(w) as int == u,
{
    lemma_pow2_unfold(w);
    let m = pow2(w) as int;
    if u >= pow2((w - 1) as nat) {
        lemma_fundamental_div_mod_converse(u - m, m, -1, u);
    } else {
        lemma_small_mod(u as nat, m as nat);
    }
}

/// Sums, differences and products of `w`-bit patterns agree, modulo `2^w`,
/// with those of their two's-complement readings.
pub proof fn lemma_signed_congruent(ua: int, ub: int, w: nat)
    requires
        w > 0,
        0 <= ua < pow2(w),
        0 <= ub < pow2(w),
    ensures
        (ua + ub) % pow2(w) as int == (signed_of(ua, w) + signed_of(ub, w)) % pow2(w) as int,
        (ua - ub) % pow2(w) as int == (signed_of(ua, w) - signed_of(ub, w)) % pow2(w) as int,
        (ua * ub) % pow2(w) as int == (signed_of(ua, w) * signed_of(ub, w)) % pow2(w) as int,
{
    let m = pow2(w) as int;
    let sa = signed_of(ua, w);
    let sb = signed_of(ub, w);
    lemma_signed_of_range(ua, w);
    lemma_signed_of_range(ub, w);
    lemma_small_mod(ua as nat, m as nat);
    lemma_small_mod(ub as nat, m as nat);
    lemma_add_mod_noop(ua, ub, m);
    lemma_add_mod_noop(sa, sb, m);
    lemma_sub_mod_noop(ua, ub, m);
    lemma_sub_mod_noop(sa, sb, m);
    lemma_mul_mod_noop(ua, ub, m);
    lemma_mul_mod_noop(sa, sb, m);
}

/// Flipping every bit of a pattern negates its two's-complement reading and
/// subtracts one.
pub proof fn lemma_signed_not(s: Seq<Bit>)
    requires
        s.len() > 0,
    ensures
        signed_of(bits_val(not_seq(s)) as int, s.len()) == -signed_of(bits_val(s) as int, s.len()) - 1,
{
    lemma_not_val(s);
    lemma_pow2_unfold(s.len());
}

/// `2^n` as a machine integer.
pub fn pow2_u128(n: usize) -> (r: u128)
    requires
        n <= 64,
    ensures
        r == pow2(n as nat),
{
    let mut r: u128 = 1;
    let mut i: usize = 0;
    proof {
        lemma2_to64();
        lemma2_to64_rest();
    }
    while i < n
        invariant
            i <= n <= 64,
            r == pow2(i as nat),
        decreases n - i,
    {
        proof {
            lemma2_to64_rest();
            lemma_pow2_unfold((i + 1) as nat);
            if i < 64 {
                lemma_pow2_strictly_increases(i as nat, 64);
            }
            assert(r < 0x1_0000_0000_0000_0000u128);
        }
        r = r * 2;
        i = i + 1;
    }
    r
}

/// The product of two patterns, wrapped to `N` bits.
pub fn mul_bits<const N: usize>(a: &[Bit; N], b: &[Bit; N]) -> (r: [Bit; N])
    requires
        N <= 64,
    ensures
        bits_val(r@) as int == wrap_unsigned(bits_val(a@) * bits_val(b@) as int, N as nat),
{
    let x = decode(a);
    let y = decode(b);
    let p = x.wrapping_mul(y);
    let r = encode::<N>(p);
    proof {
        lemma2_to64_rest();
        lemma_encode_val(p as int, N as nat);
        lemma_mod_pow2_64(x as int * y as int, N as nat);
    }
    r
}

/// The unsigned quotient of two patterns, or `DivisionByZero`.
pub fn udiv_bits<const N: usize>(a: &[Bit; N], b: &[Bit; N]) -> (r: Result<[Bit; N], NumError>)
    requires
        N <= 64,
    ensures
        match r {
            Ok(q) => bits_val(b@) != 0 && bits_val(q@) == bits_val(a@) / bits_val(b@),
            Err(e) => bits_val(b@) == 0 && e == NumError::DivisionByZero,
        },
{
    let x = decode(a);
    let y = decode(b);
    if y == 0 {
        return Err(NumError::DivisionByZero);
    }
    let q = x / y;
    let r = encode::<N>(q);
    proof {
        lemma_encode_val(q as int, N as nat);
        lemma_bits_val_bound(a@);
        lemma_div_is_ordered_by_denominator(x as int, 1, y as int);
        lemma_small_mod(q as nat, pow2(N as nat));
    }
    Ok(r)
}

/// The unsigned remainder of two patterns, or `DivisionByZero`.
pub fn urem_bits<const N: usize>(a: &[Bit; N], b: &[Bit; N]) -> (r: Result<[Bit; N], NumError>)
    requires
        N <= 64,
    ensures
        match r {
            Ok(m) => bits_val(b@) != 0 && bits_val(m@) == bits_val(a@) % bits_val(b@),
            Err(e) => bits_val(b@) == 0 && e == NumError::DivisionByZero,
        },
{
    let x = decode(a);
    let y = decode(b);
    if y == 0 {
        return Err(NumError::DivisionByZero);
    }
    let m = x % y;
    let r = encode::<N>(m);
    proof {
        lemma_encode_val(m as int, N as nat);
        lemma_bits_val_bound(b@);
        lemma_small_mod(m as nat, pow2(N as nat));
    }
    Ok(r)
}

/// The two's-complement value of a pattern of `N` bits.
pub fn decode_signed<const N: usize>(a: &[Bit; N]) -> (r: i64)
    requires
        0 < N <= 64,
    ensures
        r as int == signed_of(bits_val(a@) as int, N as nat),
{
    let u = decode(a);
    let half = pow2_u128(N - 1);
    proof {
        lemma_bits_val_bound(a@);
        lemma_pow2_unfold(N as nat);
        lemma2_to64_rest();
        if N < 64 {
            lemma_pow2_strictly_increases((N - 1) as nat, 63);
        }
    }
    if (u as u128) >= half {
        let full = pow2_u128(N);
        ((u as i128) - (full as i128)) as i64
    } else {
        u as i64
    }
}

/// The `N`-bit two's-complement pattern of `v`.
pub fn encode_signed<const N: usize>(v: i64) -> (r: [Bit; N])
    requires
        0 < N <= 64,
    ensures
        bits_val(r@) as int == v as int % pow2(N as nat) as int,
{
    proof {
        lemma2_to64_rest();
    }
    let raw: u64 = if v >= 0 {
        v as u64
    } else {
        (v as i128 + 0x1_0000_0000_0000_0000i128) as u64
    };
    proof {
        let m = pow2(64) as int;
        if v >= 0 {
            lemma_small_mod(v as nat, m as nat);
        } else {
            lemma_fundamental_div_mod_converse(v as int, m, -1, raw as int);
        }
        assert(raw as int == v as int % m);
        lemma_encode_val(raw as int, N as nat);
        lemma_mod_pow2_64(v as int, N as nat);
    }
    encode::<N>(raw)
}

/// The signed quotient, rounded toward zero and wrapped to `N` bits, or `DivisionByZero`.
pub fn sdiv_bits<const N: usize>(a: &[Bit; N], b: &[Bit; N]) -> (r: Result<[Bit; N], NumError>)
    requires
        0 < N <= 64,
    ensures
        match r {
            Ok(q) => signed_of(bits_val(b@) as int, N as nat) != 0 && signed_of(
                bits_val(q@) as int,
                N as nat,
            ) == wrap_signed(
                trunc_div(
                    signed_of(bits_val(a@) as int, N as nat),
                    signed_of(bits_val(b@) as int, N as nat),
                ),
                N as nat,
            ),
            Err(e) => signed_of(bits_val(b@) as int, N as nat) == 0 && e == NumError::DivisionByZero,
        },
{
    let x = decode_signed(a);
    let y = decode_signed(b);
    if y == 0 {
        return Err(NumError::DivisionByZero);
    }
    let ghost m = pow2(N as nat) as int;
    match x.checked_div(y) {
        Some(q) => {
            let r = encode_signed::<N>(q);
            assert(q as int == trunc_div(x as int, y as int));
            Ok(r)
        },
        None => {
            proof {
                lemma_bits_val_bound(a@);
                lemma_signed_of_range(bits_val(a@) as int, N as nat);
                lemma_div_is_ordered_by_denominator(abs(x as int), 1, abs(y as int));
                lemma2_to64_rest();
                if N < 64 {
                    lemma_pow2_strictly_increases((N - 1) as nat, 63);
                }
                lemma_pow2_unfold(N as nat);
                assert(N == 64);
                assert(x == i64::MIN);
                assert(trunc_div(x as int, y as int) == 0x8000_0000_0000_0000);
                lemma_small_mod(bits_val(a@), m as nat);
            }
            Ok(*a)
        },
    }
}

/// The signed remainder, with the sign of the dividend, or `DivisionByZero`.
pub fn srem_bits<const N: usize>(a: &[Bit; N], b: &[Bit; N]) -> (r: Result<[Bit; N], NumError>)
    requires
        0 < N <= 64,
    ensures
        match r {
            Ok(q) => signed_of(bits_val(b@) as int, N as nat) != 0 && signed_of(
                bits_val(q@) as int,
                N as nat,
            ) == trunc_rem(
                signed_of(bits_val(a@) as int, N as nat),
                signed_of(bits_val(b@) as int, N as nat),
            ),
            Err(e) => signed_of(bits_val(b@) as int, N as nat) == 0 && e == NumError::DivisionByZero,
        },
{
    let x = decode_signed(a);
    let y = decode_signed(b);
    if y == 0 {
        return Err(NumError::DivisionByZero);
    }
    proof {
        lemma_bits_val_bound(a@);
        lemma_bits_val_bound(b@);
        lemma_signed_of_range(bits_val(a@) as int, N as nat);
        lemma_signed_of_range(bits_val(b@) as int, N as nat);
        lemma_pow2_unfold(N as nat);
        lemma2_to64_rest();
        if N < 64 {
            lemma_pow2_strictly_increases((N - 1) as nat, 63);
        }
    }
    let ghost ax = abs(x as int);
    let ghost ay = abs(y as int);
    let ghost t = trunc_rem(x as int, y as int);
    proof {
        assert(0 <= ax % ay < ay);
    }
    let rm: i64 = match x.checked_rem(y) {
        Some(m) => {
            proof {
                if x > 0 && y < 0 {
                    assert(x as int % (y as int * -1) == ax % ay);
                } else if x < 0 && y > 0 {
                    assert(((x as int * -1) % y as int) * -1 == -(ax % ay));
                } else if x < 0 && y < 0 {
                    assert(((x as int * -1) % (y as int * -1)) * -1 == -(ax % ay));
                } else if x > 0 && y > 0 {
                    assert(x as int % y as int == ax % ay);
                } else {
                    assert(x == 0);
                    assert(0int % ay == 0);
                }
                assert(m as int == t);
            }
            m
        },
        None => {
            proof {
                assert(x == i64::MIN && y == -1);
                assert(ax % 1 == 0);
                assert(t == 0);
            }
            0
        },
    };
    proof {
        assert(rm as int == t);
        lemma_signed_round_trip(t, N as nat);
    }
    Ok(encode_signed::<N>(rm))
}

} // verus!
